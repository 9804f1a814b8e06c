//! Inventories: slot-addressed storage of item entity handles.
//!
//! An inventory's slot universe is fixed at creation: at most one reserved
//! slot per item kind, plus a rows x cols grid of loose slots addressed in
//! row-major order. The universe never changes afterwards; every slot is
//! always present (possibly empty).

use vstd::prelude::*;

verus! {

/// Something that can be put inside of an inventory.
#[derive(Clone, Copy, Debug, PartialEq, Eq, Structural)]
pub enum Item {
    /// An item that may occupy a matching reserved slot.
    Weapon,
    /// Just your normal everyday item; lives in loose slots.
    Misc,
}

impl Default for Item {
    fn default() -> (r: Self)
        ensures
            r == Item::Misc,
    {
        Item::Misc
    }
}

/// A SlotIndex refers to a particular place in an Inventory.
#[derive(Clone, Copy, Debug, PartialEq, Eq, Structural)]
pub enum SlotIndex {
    /// A slot that can only store items of one kind; at most one such slot
    /// per kind in any inventory.
    Reserved(Item),
    /// A general-purpose slot addressed by (row, column).
    Loose(usize, usize),
}

impl Default for SlotIndex {
    fn default() -> (r: Self)
        ensures
            r == SlotIndex::Loose(0, 0),
    {
        SlotIndex::Loose(0, 0)
    }
}

impl SlotIndex {
    pub fn is_reserved(&self) -> (r: bool)
        ensures
            r == (self is Reserved),
    {
        match self {
            SlotIndex::Reserved(_) => true,
            _ => false,
        }
    }

    pub fn is_loose(&self) -> (r: bool)
        ensures
            r == (self is Loose),
    {
        match self {
            SlotIndex::Loose(_, _) => true,
            _ => false,
        }
    }
}

/// Why an inventory operation was rejected.
#[derive(Clone, Copy, Debug, PartialEq, Eq, Structural)]
pub enum Error {
    /// The slot index is outside the inventory's fixed slot universe.
    InvalidSlotIndex,
    /// No empty slot could take the item.
    InventoryFull,
}

/// A client's request to put a world entity into its inventory. The entity is
/// named by its server handle, because a pickup targets a world entity.
#[derive(Clone, Copy, Debug, PartialEq, Eq, Structural)]
pub struct PickupRequest {
    /// The server handle of the entity the player would like to pick up.
    pub id: u32,
}

/// A client's request to drop an item, named by the item's slot in the
/// player's own inventory rather than by handle: a slot address cannot name
/// an item inside somebody else's inventory, and it is the address the
/// client's display already uses.
#[derive(Clone, Copy, Debug, PartialEq, Eq, Structural)]
pub struct DropRequest {
    /// The slot holding the item the player would like to throw on the ground.
    pub item_index: SlotIndex,
}

/// Broadcast for an item that has been taken into an inventory: the item's
/// position component is removed, so it stops existing physically.
#[derive(Clone, Copy, Debug, PartialEq, Eq, Structural)]
pub struct Deposition;

/// The mathematical model of an inventory: the reserved slots as a sequence
/// of (kind, occupant) pairs with pairwise-distinct kinds, and the loose grid
/// flattened in row-major order (slot (r, c) is at index r * cols + c).
pub ghost struct InvModel {
    pub reserved: Seq<(Item, Option<u32>)>,
    pub rows: nat,
    pub cols: nat,
    pub loose: Seq<Option<u32>>,
}

/// The occupant of the reserved slot for kind `k`, if such a slot exists.
pub open spec fn find_reserved(s: Seq<(Item, Option<u32>)>, k: Item) -> Option<Option<u32>>
    decreases s.len(),
{
    if s.len() == 0 {
        None
    } else if s[0].0 == k {
        Some(s[0].1)
    } else {
        find_reserved(s.drop_first(), k)
    }
}

/// `s` with the occupant of the reserved slot for kind `k` replaced by `v`
/// (unchanged if no such slot exists).
pub open spec fn update_reserved(
    s: Seq<(Item, Option<u32>)>,
    k: Item,
    v: Option<u32>,
) -> Seq<(Item, Option<u32>)>
    decreases s.len(),
{
    if s.len() == 0 {
        s
    } else if s[0].0 == k {
        s.update(0, (k, v))
    } else {
        seq![s[0]] + update_reserved(s.drop_first(), k, v)
    }
}

/// The index of the first empty slot of `s`, scanning from the front
/// (row-major order for a flattened loose grid).
pub open spec fn first_empty(s: Seq<Option<u32>>) -> Option<int>
    decreases s.len(),
{
    if s.len() == 0 {
        None
    } else if s[0] is None {
        Some(0int)
    } else {
        match first_empty(s.drop_first()) {
            Some(i) => Some(i + 1),
            None => None,
        }
    }
}

impl InvModel {
    /// Internal consistency: the loose grid is fully allocated and reserved
    /// kinds are pairwise distinct; dimensions fit the wire format.
    pub open spec fn wf(self) -> bool {
        &&& self.loose.len() == self.rows * self.cols
        &&& self.rows < 0x10000
        &&& self.cols < 0x10000
        &&& self.reserved.len() <= 0xffff
        &&& forall|i: int, j: int|
            0 <= i < j < self.reserved.len() ==> (#[trigger] self.reserved[i]).0 != (
            #[trigger] self.reserved[j]).0
    }

    /// The fixed slot universe: every slot index this inventory has.
    pub open spec fn universe(self) -> Set<SlotIndex> {
        Set::new(
            |idx: SlotIndex|
                match idx {
                    SlotIndex::Reserved(k) => find_reserved(self.reserved, k) is Some,
                    SlotIndex::Loose(r, c) => r < self.rows && c < self.cols,
                },
        )
    }

    /// The occupant of a slot (meaningful only for slots in the universe).
    pub open spec fn slot_of(self, idx: SlotIndex) -> Option<u32> {
        match idx {
            SlotIndex::Reserved(k) => match find_reserved(self.reserved, k) {
                Some(v) => v,
                None => None,
            },
            SlotIndex::Loose(r, c) => if r < self.rows && c < self.cols {
                self.loose[r * self.cols + c]
            } else {
                None
            },
        }
    }

    /// Every slot of the universe mapped to its occupant.
    pub open spec fn contents(self) -> Map<SlotIndex, Option<u32>> {
        Map::new(|idx: SlotIndex| self.universe().contains(idx), |idx: SlotIndex| self.slot_of(idx))
    }

    /// The slot universe contains an empty reserved slot for kind `k`.
    pub open spec fn reserved_empty(self, k: Item) -> bool {
        find_reserved(self.reserved, k) == Some(Option::<u32>::None)
    }

    /// `self` with the occupant of `idx` replaced by `v`.
    pub open spec fn write_slot(self, idx: SlotIndex, v: Option<u32>) -> InvModel {
        match idx {
            SlotIndex::Reserved(k) => InvModel {
                reserved: update_reserved(self.reserved, k, v),
                ..self
            },
            SlotIndex::Loose(r, c) => InvModel { loose: self.loose.update(r * self.cols + c, v), ..self },
        }
    }

    /// What `Inventory::clear` does: empty the slot and report the previous
    /// occupant, or reject an index outside the universe.
    pub open spec fn spec_clear(self, idx: SlotIndex) -> (InvModel, Result<Option<u32>, Error>) {
        if self.universe().contains(idx) {
            (self.write_slot(idx, None), Ok(self.slot_of(idx)))
        } else {
            (self, Err(Error::InvalidSlotIndex))
        }
    }

    /// What `Inventory::insert_loose` does: occupy the first empty loose slot
    /// in row-major order, or reject when all loose slots are occupied.
    pub open spec fn spec_insert_loose(self, ent: u32) -> (InvModel, Result<SlotIndex, Error>) {
        match first_empty(self.loose) {
            Some(i) => (
                InvModel { loose: self.loose.update(i, Some(ent)), ..self },
                Ok(
                    SlotIndex::Loose(
                        (i / self.cols as int) as usize,
                        (i % self.cols as int) as usize,
                    ),
                ),
            ),
            None => (self, Err(Error::InventoryFull)),
        }
    }

    /// What `Inventory::insert` does: for an item eligible for a reserved
    /// slot (any kind but the plain one), an empty reserved slot of its kind
    /// takes priority; an ineligible item, or an occupied or absent reserved
    /// slot, falls through to the loose grid.
    pub open spec fn spec_insert(self, ent: u32, kind: Item) -> (InvModel, Result<SlotIndex, Error>) {
        if kind != Item::Misc && self.reserved_empty(kind) {
            (self.write_slot(SlotIndex::Reserved(kind), Some(ent)), Ok(SlotIndex::Reserved(kind)))
        } else {
            self.spec_insert_loose(ent)
        }
    }
}

/// `find_reserved` returns the occupant paired with the first (and, for
/// well-formed inventories, only) entry of kind `k`.
proof fn lemma_find_reserved_at(s: Seq<(Item, Option<u32>)>, k: Item, i: int)
    requires
        0 <= i < s.len(),
        s[i].0 == k,
        forall|j: int| 0 <= j < i ==> (#[trigger] s[j]).0 != k,
    ensures
        find_reserved(s, k) == Some(s[i].1),
    decreases i,
{
    if i > 0 {
        lemma_find_reserved_at(s.drop_first(), k, i - 1);
    }
}

/// `find_reserved` finds nothing when no entry has kind `k`.
proof fn lemma_find_reserved_none(s: Seq<(Item, Option<u32>)>, k: Item)
    requires
        forall|j: int| 0 <= j < s.len() ==> (#[trigger] s[j]).0 != k,
    ensures
        find_reserved(s, k) is None,
    decreases s.len(),
{
    if s.len() > 0 {
        lemma_find_reserved_none(s.drop_first(), k);
    }
}

/// `update_reserved` is a point update at the first entry of kind `k`.
proof fn lemma_update_reserved_at(s: Seq<(Item, Option<u32>)>, k: Item, v: Option<u32>, i: int)
    requires
        0 <= i < s.len(),
        s[i].0 == k,
        forall|j: int| 0 <= j < i ==> (#[trigger] s[j]).0 != k,
    ensures
        update_reserved(s, k, v) == s.update(i, (k, v)),
    decreases i,
{
    if i == 0 {
        assert(s.update(0, (k, v)) =~= s.update(0, (k, v)));
    } else {
        lemma_update_reserved_at(s.drop_first(), k, v, i - 1);
        assert(seq![s[0]] + s.drop_first().update(i - 1, (k, v)) =~= s.update(i, (k, v)));
    }
}

/// `first_empty` is the front-most empty position.
proof fn lemma_first_empty_at(s: Seq<Option<u32>>, i: int)
    requires
        0 <= i < s.len(),
        s[i] is None,
        forall|j: int| 0 <= j < i ==> (#[trigger] s[j]) is Some,
    ensures
        first_empty(s) == Some(i),
    decreases i,
{
    if i > 0 {
        lemma_first_empty_at(s.drop_first(), i - 1);
    }
}

/// `first_empty` finds nothing in a fully occupied sequence.
proof fn lemma_first_empty_none(s: Seq<Option<u32>>)
    requires
        forall|j: int| 0 <= j < s.len() ==> (#[trigger] s[j]) is Some,
    ensures
        first_empty(s) is None,
    decreases s.len(),
{
    if s.len() > 0 {
        lemma_first_empty_none(s.drop_first());
    }
}

/// `update_reserved` keeps the length and the kind at every position.
proof fn lemma_update_reserved_shape(s: Seq<(Item, Option<u32>)>, k: Item, v: Option<u32>)
    ensures
        update_reserved(s, k, v).len() == s.len(),
        forall|j: int| 0 <= j < s.len() ==> (#[trigger] update_reserved(s, k, v)[j]).0 == s[j].0,
    decreases s.len(),
{
    if s.len() > 0 && s[0].0 != k {
        lemma_update_reserved_shape(s.drop_first(), k, v);
        assert forall|j: int| 0 <= j < s.len() implies (#[trigger] update_reserved(s, k, v)[j]).0
            == s[j].0 by {
            if j > 0 {
                assert(update_reserved(s, k, v)[j] == update_reserved(s.drop_first(), k, v)[j - 1]);
                assert(s.drop_first()[j - 1] == s[j]);
            }
        }
    }
}

/// Whether a kind has a reserved slot depends only on the kinds present.
proof fn lemma_find_reserved_same_kinds(
    s1: Seq<(Item, Option<u32>)>,
    s2: Seq<(Item, Option<u32>)>,
    k: Item,
)
    requires
        s1.len() == s2.len(),
        forall|j: int| 0 <= j < s1.len() ==> (#[trigger] s1[j]).0 == (#[trigger] s2[j]).0,
    ensures
        find_reserved(s1, k) is Some <==> find_reserved(s2, k) is Some,
    decreases s1.len(),
{
    if s1.len() > 0 {
        assert(s1[0].0 == s2[0].0);
        if s1[0].0 != k {
            assert(forall|j: int|
                0 <= j < s1.drop_first().len() ==> (#[trigger] s1.drop_first()[j]).0 == (
                #[trigger] s2.drop_first()[j]).0);
            lemma_find_reserved_same_kinds(s1.drop_first(), s2.drop_first(), k);
        }
    }
}

/// Updating a reserved occupant keeps the model well formed and keeps the
/// slot universe.
proof fn lemma_reserved_update_preserves(m: InvModel, k: Item, v: Option<u32>)
    requires
        m.wf(),
    ensures
        (InvModel { reserved: update_reserved(m.reserved, k, v), ..m }).wf(),
        (InvModel { reserved: update_reserved(m.reserved, k, v), ..m }).universe() == m.universe(),
{
    let m2 = InvModel { reserved: update_reserved(m.reserved, k, v), ..m };
    lemma_update_reserved_shape(m.reserved, k, v);
    assert forall|idx: SlotIndex| m2.universe().contains(idx) <==> m.universe().contains(
        idx,
    ) by {
        match idx {
            SlotIndex::Reserved(k2) => {
                lemma_find_reserved_same_kinds(m2.reserved, m.reserved, k2);
            },
            SlotIndex::Loose(_, _) => {},
        }
    }
    assert(m2.universe() =~= m.universe());
}

/// Updating a loose occupant keeps the model well formed and keeps the slot
/// universe.
proof fn lemma_loose_update_preserves(m: InvModel, i: int, v: Option<u32>)
    requires
        m.wf(),
        0 <= i < m.loose.len(),
    ensures
        (InvModel { loose: m.loose.update(i, v), ..m }).wf(),
        (InvModel { loose: m.loose.update(i, v), ..m }).universe() == m.universe(),
{
    let m2 = InvModel { loose: m.loose.update(i, v), ..m };
    assert(m2.universe() =~= m.universe());
}

/// `first_empty` returns an in-range position of an empty slot.
proof fn lemma_first_empty_range(s: Seq<Option<u32>>)
    ensures
        first_empty(s) matches Some(i) ==> 0 <= i < s.len() && s[i] is None,
    decreases s.len(),
{
    if s.len() > 0 && s[0] is Some {
        lemma_first_empty_range(s.drop_first());
    }
}

/// The number of occupied slots.
pub open spec fn count_some(s: Seq<Option<u32>>) -> nat
    decreases s.len(),
{
    if s.len() == 0 {
        0
    } else {
        (if s[0] is Some {
            1nat
        } else {
            0nat
        }) + count_some(s.drop_first())
    }
}

proof fn lemma_count_some_le(s: Seq<Option<u32>>)
    ensures
        count_some(s) <= s.len(),
    decreases s.len(),
{
    if s.len() > 0 {
        lemma_count_some_le(s.drop_first());
    }
}

/// A sequence with as many occupants as slots has no empty slot.
proof fn lemma_count_some_full(s: Seq<Option<u32>>)
    requires
        count_some(s) == s.len(),
    ensures
        first_empty(s) is None,
    decreases s.len(),
{
    if s.len() > 0 {
        lemma_count_some_le(s.drop_first());
        assert(s[0] is Some);
        lemma_count_some_full(s.drop_first());
    }
}

/// Filling an empty slot raises the occupant count by one.
proof fn lemma_count_some_update(s: Seq<Option<u32>>, i: int, ent: u32)
    requires
        0 <= i < s.len(),
        s[i] is None,
    ensures
        count_some(s.update(i, Some(ent))) == count_some(s) + 1,
    decreases i,
{
    let s2 = s.update(i, Some(ent));
    if i == 0 {
        assert(s2.drop_first() =~= s.drop_first());
    } else {
        assert(s2.drop_first() =~= s.drop_first().update(i - 1, Some(ent)));
        lemma_count_some_update(s.drop_first(), i - 1, ent);
    }
}

/// Clearing a slot never lowers the universe: `spec_clear` keeps
/// well-formedness and the slot universe.
pub proof fn lemma_spec_clear_preserves(m: InvModel, idx: SlotIndex)
    requires
        m.wf(),
    ensures
        m.spec_clear(idx).0.wf(),
        m.spec_clear(idx).0.universe() == m.universe(),
{
    if m.universe().contains(idx) {
        match idx {
            SlotIndex::Reserved(k) => {
                lemma_reserved_update_preserves(m, k, None);
            },
            SlotIndex::Loose(r, c) => {
                assert(r * m.cols + c < m.rows * m.cols) by (nonlinear_arith)
                    requires
                        r < m.rows,
                        c < m.cols,
                ;
                lemma_loose_update_preserves(m, r * m.cols + c, None);
            },
        }
    }
}

/// Inserting never grows or shrinks the universe: `spec_insert` keeps
/// well-formedness and the slot universe.
pub proof fn lemma_spec_insert_preserves(m: InvModel, ent: u32, kind: Item)
    requires
        m.wf(),
    ensures
        m.spec_insert(ent, kind).0.wf(),
        m.spec_insert(ent, kind).0.universe() == m.universe(),
{
    if kind != Item::Misc && m.reserved_empty(kind) {
        lemma_reserved_update_preserves(m, kind, Some(ent));
    } else {
        lemma_first_empty_range(m.loose);
    }
}

/// One inventory operation: what a client request can do to an inventory.
#[derive(Clone, Copy, Debug, PartialEq, Eq, Structural)]
pub enum InvOp {
    Insert(u32, Item),
    Clear(SlotIndex),
}

/// The inventory after one operation.
pub open spec fn apply_op(m: InvModel, op: InvOp) -> InvModel {
    match op {
        InvOp::Insert(ent, kind) => m.spec_insert(ent, kind).0,
        InvOp::Clear(idx) => m.spec_clear(idx).0,
    }
}

/// The inventory after a sequence of operations, applied front to back.
pub open spec fn apply_ops(m: InvModel, ops: Seq<InvOp>) -> InvModel
    decreases ops.len(),
{
    if ops.len() == 0 {
        m
    } else {
        apply_ops(apply_op(m, ops[0]), ops.drop_first())
    }
}

/// Law: the slot universe is fixed at creation. After any sequence of
/// insert and clear operations, the inventory is still well formed, its
/// universe is unchanged, and every slot of the universe is present in its
/// contents map (so every slot stays queryable).
pub proof fn lemma_universe_fixed(m: InvModel, ops: Seq<InvOp>)
    requires
        m.wf(),
    ensures
        apply_ops(m, ops).wf(),
        apply_ops(m, ops).universe() == m.universe(),
        apply_ops(m, ops).contents().dom() == m.universe(),
    decreases ops.len(),
{
    assert(apply_ops(m, ops).contents().dom() =~= apply_ops(m, ops).universe());
    if ops.len() > 0 {
        match ops[0] {
            InvOp::Insert(ent, kind) => lemma_spec_insert_preserves(m, ent, kind),
            InvOp::Clear(idx) => lemma_spec_clear_preserves(m, idx),
        }
        lemma_universe_fixed(apply_op(m, ops[0]), ops.drop_first());
    }
}

/// The inventory after inserting the given (handle, kind) pairs in order.
pub open spec fn apply_inserts(m: InvModel, items: Seq<(u32, Item)>) -> InvModel
    decreases items.len(),
{
    if items.len() == 0 {
        m
    } else {
        apply_inserts(m.spec_insert(items[0].0, items[0].1).0, items.drop_first())
    }
}

/// Every insert of the given sequence succeeds.
pub open spec fn inserts_all_succeed(m: InvModel, items: Seq<(u32, Item)>) -> bool
    decreases items.len(),
{
    items.len() == 0 || (m.spec_insert(items[0].0, items[0].1).1 is Ok && inserts_all_succeed(
        m.spec_insert(items[0].0, items[0].1).0,
        items.drop_first(),
    ))
}

/// In a loose-only inventory every successful insert fills one more slot.
proof fn lemma_loose_inserts_count(m: InvModel, items: Seq<(u32, Item)>)
    requires
        m.wf(),
        m.reserved.len() == 0,
        inserts_all_succeed(m, items),
    ensures
        apply_inserts(m, items).wf(),
        apply_inserts(m, items).reserved.len() == 0,
        apply_inserts(m, items).loose.len() == m.loose.len(),
        count_some(apply_inserts(m, items).loose) == count_some(m.loose) + items.len(),
    decreases items.len(),
{
    if items.len() > 0 {
        let ent = items[0].0;
        let kind = items[0].1;
        assert(!m.reserved_empty(kind));
        let step = m.spec_insert(ent, kind);
        lemma_first_empty_range(m.loose);
        let i = first_empty(m.loose)->Some_0;
        lemma_count_some_update(m.loose, i, ent);
        lemma_loose_update_preserves(m, i, Some(ent));
        lemma_loose_inserts_count(step.0, items.drop_first());
    }
}

/// Law: a loose-only inventory with R rows and C columns, after C x R
/// successful inserts and no clears, rejects the next insert with
/// `InventoryFull`.
pub proof fn lemma_full_loose_inventory_rejects(
    m: InvModel,
    items: Seq<(u32, Item)>,
    ent: u32,
    kind: Item,
)
    requires
        m.wf(),
        m.reserved.len() == 0,
        items.len() == m.rows * m.cols,
        inserts_all_succeed(m, items),
    ensures
        apply_inserts(m, items).spec_insert(ent, kind).1 == Err::<SlotIndex, Error>(
            Error::InventoryFull,
        ),
{
    lemma_loose_inserts_count(m, items);
    let fin = apply_inserts(m, items);
    lemma_count_some_le(fin.loose);
    lemma_count_some_le(m.loose);
    assert(count_some(fin.loose) == fin.loose.len());
    lemma_count_some_full(fin.loose);
    assert(!fin.reserved_empty(kind));
}

/// The occupants of a reserved-slot sequence, in order.
pub open spec fn occ_of_pairs(s: Seq<(Item, Option<u32>)>) -> Seq<u32>
    decreases s.len(),
{
    if s.len() == 0 {
        Seq::empty()
    } else {
        occ_of_pairs(s.drop_last()) + (match s.last().1 {
            Some(v) => seq![v],
            None => Seq::empty(),
        })
    }
}

/// The occupants of a loose-slot sequence, in order.
pub open spec fn occ_of_slots(s: Seq<Option<u32>>) -> Seq<u32>
    decreases s.len(),
{
    if s.len() == 0 {
        Seq::empty()
    } else {
        occ_of_slots(s.drop_last()) + (match s.last() {
            Some(v) => seq![v],
            None => Seq::empty(),
        })
    }
}

/// The model of a character inventory: a reserved weapon slot plus an empty
/// 6 x 2 loose grid.
pub open spec fn character_model() -> InvModel {
    InvModel {
        reserved: seq![(Item::Weapon, Option::<u32>::None)],
        rows: 6,
        cols: 2,
        loose: Seq::new(12, |i: int| Option::<u32>::None),
    }
}

/// This component stores the server handles of all of the items owned by the
/// entity it is attached to. Individual items are addressed by `SlotIndex`.
#[derive(Debug, PartialEq, Eq)]
pub struct Inventory {
    reserved: Vec<(Item, Option<u32>)>,
    rows: usize,
    cols: usize,
    loose: Vec<Option<u32>>,
}

impl View for Inventory {
    type V = InvModel;

    closed spec fn view(&self) -> InvModel {
        InvModel {
            reserved: self.reserved@,
            rows: self.rows as nat,
            cols: self.cols as nat,
            loose: self.loose@,
        }
    }
}

impl Default for Inventory {
    /// An inventory with no slots at all.
    fn default() -> (r: Self)
        ensures
            r@.wf(),
            r@.rows == 0,
            r@.cols == 0,
            r@.reserved == Seq::<(Item, Option<u32>)>::empty(),
    {
        Inventory::new_loose(0, 0)
    }
}

impl Inventory {
    /// Create an inventory of only loose slots with the given dimensions.
    pub fn new_loose(rows: usize, cols: usize) -> (r: Inventory)
        requires
            rows < 0x10000,
            cols < 0x10000,
        ensures
            r@.wf(),
            r@.rows == rows,
            r@.cols == cols,
            r@.reserved == Seq::<(Item, Option<u32>)>::empty(),
            forall|i: int| 0 <= i < r@.loose.len() ==> r@.loose[i] is None,
    {
        assert(rows * cols < 0x100000000) by (nonlinear_arith)
            requires
                rows < 0x10000,
                cols < 0x10000,
        ;
        let total = rows * cols;
        let mut loose: Vec<Option<u32>> = Vec::new();
        while loose.len() < total
            invariant
                loose.len() <= total,
                forall|i: int| 0 <= i < loose@.len() ==> loose@[i] is None,
            decreases total - loose.len(),
        {
            loose.push(None);
        }
        Inventory { reserved: Vec::new(), rows, cols, loose }
    }

    /// A character inventory: a reserved weapon slot plus a 6 x 2 loose grid.
    pub fn character() -> (r: Inventory)
        ensures
            r@ == character_model(),
            r@.wf(),
            r@.rows == 6,
            r@.cols == 2,
            r@.reserved == seq![(Item::Weapon, Option::<u32>::None)],
            forall|i: int| 0 <= i < r@.loose.len() ==> r@.loose[i] is None,
    {
        let mut inv = Inventory::new_loose(6, 2);
        inv.reserved.push((Item::Weapon, None));
        assert(inv@.reserved =~= seq![(Item::Weapon, Option::<u32>::None)]);
        assert(inv@.loose =~= Seq::new(12, |i: int| Option::<u32>::None));
        inv
    }

    /// The number of loose rows.
    pub fn rows(&self) -> (r: usize)
        ensures
            r == self@.rows,
    {
        self.rows
    }

    /// The number of loose columns.
    pub fn columns(&self) -> (r: usize)
        ensures
            r == self@.cols,
    {
        self.cols
    }

    /// Find the position of the reserved entry of kind `k`, if any.
    fn find_reserved_pos(&self, k: &Item) -> (r: Option<usize>)
        ensures
            match r {
                Some(i) => i < self@.reserved.len() && self@.reserved[i as int].0 == *k
                    && find_reserved(self@.reserved, *k) == Some(self@.reserved[i as int].1),
                None => find_reserved(self@.reserved, *k) is None,
            },
    {
        let mut i: usize = 0;
        while i < self.reserved.len()
            invariant
                i <= self.reserved.len(),
                forall|j: int| 0 <= j < i ==> (#[trigger] self.reserved@[j]).0 != *k,
            decreases self.reserved.len() - i,
        {
            if self.reserved[i].0 == *k {
                proof {
                    lemma_find_reserved_at(self@.reserved, *k, i as int);
                }
                return Some(i);
            }
            i = i + 1;
        }
        proof {
            lemma_find_reserved_none(self@.reserved, *k);
        }
        None
    }

    /// Returns the occupant of the slot at the given `SlotIndex` if such a
    /// slot exists; otherwise the index is rejected.
    pub fn slot(&self, index: &SlotIndex) -> (r: Result<Option<u32>, Error>)
        requires
            self@.wf(),
        ensures
            r == (if self@.universe().contains(*index) {
                Ok::<Option<u32>, Error>(self@.slot_of(*index))
            } else {
                Err::<Option<u32>, Error>(Error::InvalidSlotIndex)
            }),
    {
        match index {
            SlotIndex::Reserved(k) => {
                match self.find_reserved_pos(k) {
                    Some(i) => Ok(self.reserved[i].1),
                    None => Err(Error::InvalidSlotIndex),
                }
            },
            SlotIndex::Loose(row, col) => {
                if *row < self.rows && *col < self.cols {
                    let i = self.loose_pos(*row, *col);
                    Ok(self.loose[i])
                } else {
                    Err(Error::InvalidSlotIndex)
                }
            },
        }
    }

    /// The flattened row-major position of loose slot (row, col).
    fn loose_pos(&self, row: usize, col: usize) -> (i: usize)
        requires
            self@.wf(),
            row < self@.rows,
            col < self@.cols,
        ensures
            i == row * self@.cols + col,
            i < self@.loose.len(),
    {
        let n = self.loose.len();
        proof {
            assert(row * self.cols + col < self.rows * self.cols) by (nonlinear_arith)
                requires
                    row < self.rows,
                    col < self.cols,
            ;
            assert(n == self.rows * self.cols);
        }
        row * self.cols + col
    }

    /// Clears the slot at the given index by setting it to empty, and returns
    /// the occupant the slot held before. Rejected only when no slot with
    /// that index exists in the inventory's fixed universe.
    pub fn clear(&mut self, index: &SlotIndex) -> (r: Result<Option<u32>, Error>)
        requires
            old(self)@.wf(),
        ensures
            final(self)@ == old(self)@.spec_clear(*index).0,
            r == old(self)@.spec_clear(*index).1,
            final(self)@.wf(),
            final(self)@.universe() == old(self)@.universe(),
    {
        let ghost m0 = self@;
        match index {
            SlotIndex::Reserved(k) => {
                match self.find_reserved_pos(k) {
                    Some(i) => {
                        let prev = self.reserved[i].1;
                        let kind = self.reserved[i].0;
                        self.reserved.set(i, (kind, None));
                        proof {
                            lemma_update_reserved_at(m0.reserved, *k, None, i as int);
                            lemma_reserved_update_preserves(m0, *k, None);
                        }
                        Ok(prev)
                    },
                    None => Err(Error::InvalidSlotIndex),
                }
            },
            SlotIndex::Loose(row, col) => {
                if *row < self.rows && *col < self.cols {
                    let i = self.loose_pos(*row, *col);
                    let prev = self.loose[i];
                    self.loose.set(i, None);
                    proof {
                        lemma_loose_update_preserves(m0, i as int, None);
                    }
                    Ok(prev)
                } else {
                    Err(Error::InvalidSlotIndex)
                }
            },
        }
    }

    /// Finds the first empty loose slot in row-major order and inserts the
    /// given item entity handle into it, returning its index; rejected when
    /// every loose slot is occupied.
    pub fn insert_loose(&mut self, ent: u32) -> (r: Result<SlotIndex, Error>)
        requires
            old(self)@.wf(),
        ensures
            final(self)@ == old(self)@.spec_insert_loose(ent).0,
            r == old(self)@.spec_insert_loose(ent).1,
            final(self)@.wf(),
            final(self)@.universe() == old(self)@.universe(),
    {
        let ghost m0 = self@;
        let mut i: usize = 0;
        while i < self.loose.len()
            invariant
                self@ == m0,
                m0 == old(self)@,
                m0.wf(),
                i <= self.loose.len(),
                forall|j: int| 0 <= j < i ==> (#[trigger] self.loose@[j]) is Some,
            decreases self.loose.len() - i,
        {
            if self.loose[i].is_none() {
                proof {
                    lemma_first_empty_at(m0.loose, i as int);
                }
                self.loose.set(i, Some(ent));
                proof {
                    assert(m0.cols > 0) by {
                        if m0.cols == 0 {
                            assert(m0.rows * m0.cols == 0) by (nonlinear_arith)
                                requires
                                    m0.cols == 0,
                            ;
                        }
                    }
                    lemma_loose_update_preserves(m0, i as int, Some(ent));
                    assert(0 <= i as int / (m0.cols as int) <= i as int) by (nonlinear_arith)
                        requires
                            m0.cols > 0,
                            i >= 0,
                    ;
                    assert(0 <= i as int % (m0.cols as int) < m0.cols) by (nonlinear_arith)
                        requires
                            m0.cols > 0,
                            i >= 0,
                    ;
                }
                let row = i / self.cols;
                let col = i % self.cols;
                return Ok(SlotIndex::Loose(row, col));
            }
            i = i + 1;
        }
        proof {
            lemma_first_empty_none(m0.loose);
        }
        Err(Error::InventoryFull)
    }

    /// Finds an empty slot appropriate for the given item and inserts the
    /// item entity handle into it. For an item eligible for a reserved slot
    /// (a plain item is not: it can only live in loose slots), an empty
    /// reserved slot of its kind takes priority; otherwise the loose grid is
    /// filled starting from the top left (row-major). Rejected only when no
    /// empty slot remains that can take the item.
    pub fn insert(&mut self, ent: u32, item: &Item) -> (r: Result<SlotIndex, Error>)
        requires
            old(self)@.wf(),
        ensures
            final(self)@ == old(self)@.spec_insert(ent, *item).0,
            r == old(self)@.spec_insert(ent, *item).1,
            final(self)@.wf(),
            final(self)@.universe() == old(self)@.universe(),
            *item != Item::Misc && old(self)@.reserved_empty(*item) ==> r == Ok::<SlotIndex, Error>(
                SlotIndex::Reserved(*item),
            ),
            *item == Item::Misc ==> !(r matches Ok(s) && s is Reserved),
    {
        let ghost m0 = self@;
        if matches!(item, Item::Misc) {
            return self.insert_loose(ent);
        }
        match self.find_reserved_pos(item) {
            Some(i) => {
                if self.reserved[i].1.is_none() {
                    let kind = self.reserved[i].0;
                    self.reserved.set(i, (kind, Some(ent)));
                    proof {
                        lemma_update_reserved_at(m0.reserved, *item, Some(ent), i as int);
                        lemma_reserved_update_preserves(m0, *item, Some(ent));
                    }
                    Ok(SlotIndex::Reserved(*item))
                } else {
                    self.insert_loose(ent)
                }
            },
            None => self.insert_loose(ent),
        }
    }

    /// Whether this inventory is well formed (true for every inventory the
    /// library itself builds; a caller that assembled one from received parts
    /// can test it here).
    pub fn is_wf(&self) -> (r: bool)
        ensures
            r == self@.wf(),
    {
        if self.rows >= 0x10000 || self.cols >= 0x10000 || self.reserved.len() > 0xffff {
            return false;
        }
        proof {
            assert(self.rows * self.cols < 0x100000000) by (nonlinear_arith)
                requires
                    self.rows < 0x10000,
                    self.cols < 0x10000,
            ;
        }
        if self.loose.len() != self.rows * self.cols {
            return false;
        }
        let n = self.reserved.len();
        let mut i: usize = 0;
        while i < n
            invariant
                n == self@.reserved.len(),
                i <= n,
                forall|a: int, b: int|
                    0 <= a < b < n && a < i ==> (#[trigger] self@.reserved[a]).0 != (
                    #[trigger] self@.reserved[b]).0,
            decreases n - i,
        {
            let mut j: usize = i + 1;
            while j < n
                invariant
                    i < j <= n,
                    i < n,
                    n == self@.reserved.len(),
                    forall|b: int|
                        i < b < j ==> (#[trigger] self@.reserved[b]).0 != self@.reserved[i as int].0,
                decreases n - j,
            {
                if self.reserved[i].0 == self.reserved[j].0 {
                    return false;
                }
                j = j + 1;
            }
            i = i + 1;
        }
        true
    }

    /// The handles stored in this inventory: reserved occupants first, then
    /// the loose grid in row-major order.
    pub fn occupant_ids(&self) -> (r: Vec<u32>)
        ensures
            r@ == occ_of_pairs(self@.reserved) + occ_of_slots(self@.loose),
    {
        let mut r: Vec<u32> = Vec::new();
        let mut k: usize = 0;
        let n1 = self.reserved.len();
        while k < n1
            invariant
                n1 == self@.reserved.len(),
                k <= n1,
                r@ == occ_of_pairs(self@.reserved.take(k as int)),
            decreases n1 - k,
        {
            let ghost pre = self@.reserved.take(k as int);
            match self.reserved[k].1 {
                Some(id) => r.push(id),
                None => {},
            }
            proof {
                let pre2 = self@.reserved.take(k + 1 as int);
                assert(pre2.drop_last() =~= pre);
                assert(pre2.last() == self@.reserved[k as int]);
                assert(r@ =~= occ_of_pairs(pre2));
            }
            k = k + 1;
        }
        proof {
            assert(self@.reserved.take(self@.reserved.len() as int) =~= self@.reserved);
        }
        let mut j: usize = 0;
        let n2 = self.loose.len();
        while j < n2
            invariant
                n2 == self@.loose.len(),
                j <= n2,
                r@ == occ_of_pairs(self@.reserved) + occ_of_slots(self@.loose.take(j as int)),
            decreases n2 - j,
        {
            let ghost pre = self@.loose.take(j as int);
            match self.loose[j] {
                Some(id) => r.push(id),
                None => {},
            }
            proof {
                let pre2 = self@.loose.take(j + 1 as int);
                assert(pre2.drop_last() =~= pre);
                assert(pre2.last() == self@.loose[j as int]);
                assert(r@ =~= occ_of_pairs(self@.reserved) + occ_of_slots(pre2));
            }
            j = j + 1;
        }
        proof {
            assert(self@.loose.take(self@.loose.len() as int) =~= self@.loose);
        }
        r
    }

    /// The reserved slots as (kind, occupant) pairs.
    pub fn reserved_entries(&self) -> (r: &Vec<(Item, Option<u32>)>)
        ensures
            r@ == self@.reserved,
    {
        &self.reserved
    }

    /// The loose grid, flattened in row-major order.
    pub fn loose_entries(&self) -> (r: &Vec<Option<u32>>)
        ensures
            r@ == self@.loose,
    {
        &self.loose
    }

    /// Reassemble an inventory from its parts (the wire decoder's path in).
    pub fn from_parts(
        reserved: Vec<(Item, Option<u32>)>,
        rows: usize,
        cols: usize,
        loose: Vec<Option<u32>>,
    ) -> (r: Inventory)
        requires
            rows < 0x10000,
            cols < 0x10000,
            reserved@.len() <= 0xffff,
            loose@.len() == rows * cols,
            forall|i: int, j: int|
                0 <= i < j < reserved@.len() ==> (#[trigger] reserved@[i]).0 != (
                #[trigger] reserved@[j]).0,
        ensures
            r@ == (InvModel {
                reserved: reserved@,
                rows: rows as nat,
                cols: cols as nat,
                loose: loose@,
            }),
            r@.wf(),
    {
        Inventory { reserved, rows, cols, loose }
    }

    /// The loose slots in row-major order, as (index, occupant) pairs.
    pub fn loose(&self) -> (r: Vec<(SlotIndex, Option<u32>)>)
        requires
            self@.wf(),
        ensures
            r@.len() == self@.rows * self@.cols,
            forall|k: int|
                0 <= k < r@.len() ==> (#[trigger] r@[k]) == (
                    SlotIndex::Loose(
                        (k / self@.cols as int) as usize,
                        (k % self@.cols as int) as usize,
                    ),
                    self@.loose[k],
                ),
    {
        let n = self.loose.len();
        let mut r: Vec<(SlotIndex, Option<u32>)> = Vec::new();
        let mut k: usize = 0;
        while k < n
            invariant
                self@.wf(),
                n == self@.loose.len(),
                k <= n,
                r@.len() == k,
                forall|j: int|
                    0 <= j < k ==> (#[trigger] r@[j]) == (
                        SlotIndex::Loose(
                            (j / self@.cols as int) as usize,
                            (j % self@.cols as int) as usize,
                        ),
                        self@.loose[j],
                    ),
            decreases n - k,
        {
            proof {
                assert(self@.cols > 0) by {
                    if self@.cols == 0 {
                        assert(self@.rows * self@.cols == 0) by (nonlinear_arith)
                            requires
                                self@.cols == 0,
                        ;
                    }
                }
                assert(0 <= k as int / (self@.cols as int) <= k as int) by (nonlinear_arith)
                    requires
                        self@.cols > 0,
                        k >= 0,
                ;
                assert(0 <= k as int % (self@.cols as int) < self@.cols) by (nonlinear_arith)
                    requires
                        self@.cols > 0,
                        k >= 0,
                ;
            }
            r.push((SlotIndex::Loose(k / self.cols, k % self.cols), self.loose[k]));
            k = k + 1;
        }
        r
    }

    /// The reserved slots, as (index, occupant) pairs.
    pub fn reserved(&self) -> (r: Vec<(SlotIndex, Option<u32>)>)
        ensures
            r@.len() == self@.reserved.len(),
            forall|k: int|
                0 <= k < r@.len() ==> (#[trigger] r@[k]) == (
                    SlotIndex::Reserved(self@.reserved[k].0),
                    self@.reserved[k].1,
                ),
    {
        let n = self.reserved.len();
        let mut r: Vec<(SlotIndex, Option<u32>)> = Vec::new();
        let mut k: usize = 0;
        while k < n
            invariant
                n == self@.reserved.len(),
                k <= n,
                r@.len() == k,
                forall|j: int|
                    0 <= j < k ==> (#[trigger] r@[j]) == (
                        SlotIndex::Reserved(self@.reserved[j].0),
                        self@.reserved[j].1,
                    ),
            decreases n - k,
        {
            r.push((SlotIndex::Reserved(self.reserved[k].0), self.reserved[k].1));
            k = k + 1;
        }
        r
    }

    /// A copy of this inventory with the same model.
    pub fn duplicate(&self) -> (r: Inventory)
        ensures
            r@ == self@,
    {
        let mut reserved: Vec<(Item, Option<u32>)> = Vec::new();
        let mut i: usize = 0;
        while i < self.reserved.len()
            invariant
                i <= self.reserved.len(),
                reserved@ == self.reserved@.take(i as int),
            decreases self.reserved.len() - i,
        {
            reserved.push(self.reserved[i]);
            assert(reserved@ =~= self.reserved@.take(i + 1 as int));
            i = i + 1;
        }
        let mut loose: Vec<Option<u32>> = Vec::new();
        let mut j: usize = 0;
        while j < self.loose.len()
            invariant
                j <= self.loose.len(),
                loose@ == self.loose@.take(j as int),
            decreases self.loose.len() - j,
        {
            loose.push(self.loose[j]);
            assert(loose@ =~= self.loose@.take(j + 1 as int));
            j = j + 1;
        }
        assert(reserved@ =~= self.reserved@);
        assert(loose@ =~= self.loose@);
        Inventory { reserved, rows: self.rows, cols: self.cols, loose }
    }
}

} // verus!
