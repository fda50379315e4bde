//! The game-framework data model around the core: game states, quests,
//! items and the inventory, and the dialogue system.

use vstd::prelude::*;

verus! {

/// The top-level states of a running game.
#[derive(Debug, Clone, PartialEq, Eq, Structural)]
pub enum GameState {
    MainMenu,
    Playing,
    Paused,
    GameOver,
    Victory,
    Loading,
    Settings,
}

/// A quest with its objectives and rewards.
#[derive(Debug, Clone)]
pub struct Quest {
    pub id: String,
    pub title: String,
    pub description: String,
    pub objectives: Vec<QuestObjective>,
    pub rewards: Vec<QuestReward>,
    pub is_completed: bool,
    pub is_active: bool,
}

#[derive(Debug, Clone)]
pub struct QuestObjective {
    pub id: String,
    pub description: String,
    pub target_type: String,
    pub target_count: i32,
    pub current_count: i32,
    pub is_completed: bool,
}

#[derive(Debug, Clone)]
pub struct QuestReward {
    pub reward_type: String,
    pub amount: i32,
    pub item_id: Option<String>,
}

/// An inventory item.
#[derive(Debug, Clone)]
pub struct Item {
    pub id: String,
    pub name: String,
    pub description: String,
    pub item_type: ItemType,
    pub rarity: ItemRarity,
    pub value: i32,
    pub stackable: bool,
    pub max_stack: i32,
}

#[derive(Debug, Clone, PartialEq, Eq, Structural)]
pub enum ItemType {
    Weapon,
    Armor,
    Consumable,
    Material,
    Quest,
    Misc,
}

#[derive(Debug, Clone, PartialEq, Eq, Structural)]
pub enum ItemRarity {
    Common,
    Uncommon,
    Rare,
    Epic,
    Legendary,
}

/// One inventory slot: an item stack or empty.
#[derive(Debug, Clone)]
pub struct InventorySlot {
    pub item: Option<Item>,
    pub quantity: i32,
}

/// A fixed number of slots and a purse.
pub struct Inventory {
    pub slots: Vec<InventorySlot>,
    pub max_slots: usize,
    pub gold: i32,
}

/// Validity: no slot holds a negative quantity.
pub open spec fn inv_wf(slots: Seq<InventorySlot>) -> bool {
    forall|i: int| 0 <= i < slots.len() ==> (#[trigger] slots[i].quantity) >= 0
}

/// The stacking pass from slot `k`: each slot holding the same item with
/// room takes as much of the quantity as fits; the pass reports success as
/// soon as one slot absorbs the full amount.
pub open spec fn stack_from(slots: Seq<InventorySlot>, item: Item, qty: int, k: int) -> (
    Seq<InventorySlot>,
    bool,
)
    decreases slots.len() - k,
{
    if k < 0 || k >= slots.len() {
        (slots, false)
    } else {
        let sl = slots[k];
        match sl.item {
            Some(existing) => {
                if existing.id@ == item.id@ && sl.quantity < item.max_stack {
                    let can_add = if item.max_stack - sl.quantity < qty {
                        item.max_stack - sl.quantity
                    } else {
                        qty
                    };
                    let slots2 = slots.update(
                        k,
                        InventorySlot { item: sl.item, quantity: (sl.quantity + can_add) as i32 },
                    );
                    if can_add == qty {
                        (slots2, true)
                    } else {
                        stack_from(slots2, item, qty, k + 1)
                    }
                } else {
                    stack_from(slots, item, qty, k + 1)
                }
            },
            None => stack_from(slots, item, qty, k + 1),
        }
    }
}

/// The placement pass from slot `k`: the first empty slot takes the whole
/// stack.
pub open spec fn place_from(slots: Seq<InventorySlot>, item: Item, qty: int, k: int) -> (
    Seq<InventorySlot>,
    bool,
)
    decreases slots.len() - k,
{
    if k < 0 || k >= slots.len() {
        (slots, false)
    } else if slots[k].item is None {
        (slots.update(k, InventorySlot { item: Some(item), quantity: qty as i32 }), true)
    } else {
        place_from(slots, item, qty, k + 1)
    }
}

/// What `add_item` does: a stackable item first tries to stack, and falls
/// back to an empty slot only when no single slot absorbed the full amount;
/// a non-stackable item goes straight to an empty slot.
pub open spec fn add_item_s(slots: Seq<InventorySlot>, item: Item, qty: int) -> (
    Seq<InventorySlot>,
    bool,
) {
    if item.stackable {
        let stacked = stack_from(slots, item, qty, 0);
        if stacked.1 {
            stacked
        } else {
            place_from(stacked.0, item, qty, 0)
        }
    } else {
        place_from(slots, item, qty, 0)
    }
}

/// The removal pass from slot `k`: each slot holding the item gives up as
/// much as is still owed (an emptied slot is cleared); the pass reports
/// success as soon as nothing is owed.
pub open spec fn remove_from(slots: Seq<InventorySlot>, id: Seq<char>, rem: int, k: int) -> (
    Seq<InventorySlot>,
    bool,
)
    decreases slots.len() - k,
{
    if k < 0 || k >= slots.len() {
        (slots, false)
    } else {
        let sl = slots[k];
        match sl.item {
            Some(existing) => {
                if existing.id@ == id {
                    let can_remove = if sl.quantity < rem {
                        sl.quantity as int
                    } else {
                        rem
                    };
                    let q2 = sl.quantity - can_remove;
                    let slot2 = if q2 == 0 {
                        InventorySlot { item: None, quantity: 0 }
                    } else {
                        InventorySlot { item: sl.item, quantity: q2 as i32 }
                    };
                    let slots2 = slots.update(k, slot2);
                    let rem2 = rem - can_remove;
                    if rem2 == 0 {
                        (slots2, true)
                    } else {
                        remove_from(slots2, id, rem2, k + 1)
                    }
                } else {
                    remove_from(slots, id, rem, k + 1)
                }
            },
            None => remove_from(slots, id, rem, k + 1),
        }
    }
}

/// How many of the item the slots from `k` onward hold.
pub open spec fn count_from(slots: Seq<InventorySlot>, id: Seq<char>, k: int) -> int
    decreases slots.len() - k,
{
    if k < 0 || k >= slots.len() {
        0
    } else {
        let rest = count_from(slots, id, k + 1);
        match slots[k].item {
            Some(existing) => if existing.id@ == id {
                slots[k].quantity + rest
            } else {
                rest
            },
            None => rest,
        }
    }
}

/// A valid inventory never counts a negative total.
proof fn lemma_count_nonneg(slots: Seq<InventorySlot>, id: Seq<char>, k: int)
    requires
        inv_wf(slots),
    ensures
        count_from(slots, id, k) >= 0,
    decreases slots.len() - k,
{
    if 0 <= k < slots.len() {
        lemma_count_nonneg(slots, id, k + 1);
    }
}

impl Inventory {
    /// An empty inventory of `max_slots` slots and no gold.
    pub fn new(max_slots: usize) -> (r: Self)
        ensures
            r.slots@.len() == max_slots,
            forall|i: int|
                0 <= i < max_slots ==> (#[trigger] r.slots@[i].item) is None && r.slots@[i].quantity
                    == 0,
            r.max_slots == max_slots,
            r.gold == 0,
            inv_wf(r.slots@),
    {
        let mut slots: Vec<InventorySlot> = Vec::new();
        let mut i: usize = 0;
        while i < max_slots
            invariant
                i <= max_slots,
                slots@.len() == i,
                forall|m: int|
                    0 <= m < i ==> (#[trigger] slots@[m].item) is None && slots@[m].quantity == 0,
            decreases max_slots - i,
        {
            slots.push(InventorySlot { item: None, quantity: 0 });
            i = i + 1;
        }
        proof {
            assert forall|m: int| 0 <= m < slots@.len() implies (#[trigger] slots@[m].quantity)
                >= 0 by {
                assert(slots@[m].item is None && slots@[m].quantity == 0);
            }
        }
        Inventory { slots, max_slots, gold: 0 }
    }

    /// Adds a stack; reports failure when the inventory cannot take it
    /// (a partial stacking may still have happened, as the passes describe).
    #[verifier::rlimit(100)]
    pub fn add_item(&mut self, item: Item, quantity: i32) -> (r: bool)
        requires
            inv_wf(old(self).slots@),
            quantity >= 0,
        ensures
            final(self).slots@ == add_item_s(old(self).slots@, item, quantity as int).0,
            r == add_item_s(old(self).slots@, item, quantity as int).1,
            final(self).gold == old(self).gold,
            final(self).max_slots == old(self).max_slots,
    {
        let ghost s0 = self.slots@;
        if item.stackable {
            let n: usize = self.slots.len();
            let mut k: usize = 0;
            while k < n
                invariant
                    k <= n == self.slots.len(),
                    inv_wf(self.slots@),
                    quantity >= 0,
                    s0 == old(self).slots@,
                    item.stackable,
                    stack_from(s0, item, quantity as int, 0) == stack_from(
                        self.slots@,
                        item,
                        quantity as int,
                        k as int,
                    ),
                    self.gold == old(self).gold,
                    self.max_slots == old(self).max_slots,
                decreases n - k,
            {
                let ghost pre = self.slots@;
                let has_room: bool = match &self.slots[k].item {
                    Some(existing) => crate::str_eq(existing.id.as_str(), item.id.as_str())
                        && self.slots[k].quantity < item.max_stack,
                    None => false,
                };
                if has_room {
                    proof {
                        assert(pre[k as int].quantity >= 0);
                    }
                    let sl_q: i32 = self.slots[k].quantity;
                    let room: i32 = item.max_stack - sl_q;
                    let can_add: i32 = if room < quantity {
                        room
                    } else {
                        quantity
                    };
                    let e: InventorySlot = self.slots.remove(k);
                    self.slots.insert(
                        k,
                        InventorySlot { item: e.item, quantity: sl_q + can_add },
                    );
                    proof {
                        pre.remove_ensures(k as int);
                        assert(self.slots@ =~= pre.update(
                            k as int,
                            InventorySlot {
                                item: pre[k as int].item,
                                quantity: (sl_q + can_add) as i32,
                            },
                        ));
                        assert(stack_from(pre, item, quantity as int, k as int) == (
                        if can_add as int == quantity as int {
                            (self.slots@, true)
                        } else {
                            stack_from(self.slots@, item, quantity as int, k as int + 1)
                        }));
                        assert forall|m: int| 0 <= m < self.slots@.len() implies (
                        #[trigger] self.slots@[m].quantity) >= 0 by {
                            assert(pre[m].quantity >= 0);
                        }
                    }
                    if can_add == quantity {
                        proof {
                            assert(stack_from(s0, item, quantity as int, 0) == (self.slots@, true));
                        }
                        return true;
                    }
                }
                k = k + 1;
            }
            proof {
                assert(stack_from(s0, item, quantity as int, 0) == (self.slots@, false));
            }
            self.place_item(item, quantity)
        } else {
            self.place_item(item, quantity)
        }
    }

    /// The placement pass: the first empty slot takes the stack.
    fn place_item(&mut self, item: Item, quantity: i32) -> (r: bool)
        requires
            inv_wf(old(self).slots@),
            quantity >= 0,
        ensures
            final(self).slots@ == place_from(old(self).slots@, item, quantity as int, 0).0,
            r == place_from(old(self).slots@, item, quantity as int, 0).1,
            inv_wf(final(self).slots@),
            final(self).gold == old(self).gold,
            final(self).max_slots == old(self).max_slots,
    {
        let ghost s0 = self.slots@;
        let n: usize = self.slots.len();
        let mut k: usize = 0;
        while k < n
            invariant
                k <= n == self.slots.len(),
                self.slots@ == s0,
                s0 == old(self).slots@,
                inv_wf(s0),
                quantity >= 0,
                place_from(s0, item, quantity as int, 0) == place_from(
                    s0,
                    item,
                    quantity as int,
                    k as int,
                ),
                *self == *old(self),
            decreases n - k,
        {
            let empty: bool = match &self.slots[k].item {
                Some(_) => false,
                None => true,
            };
            if empty {
                self.slots.set(k, InventorySlot { item: Some(item), quantity });
                proof {
                    assert(self.slots@ == place_from(s0, item, quantity as int, k as int).0);
                    assert forall|m: int| 0 <= m < self.slots@.len() implies (
                    #[trigger] self.slots@[m].quantity) >= 0 by {
                        assert(m != k as int ==> self.slots@[m] == s0[m]);
                    }
                }
                return true;
            }
            k = k + 1;
        }
        false
    }

    /// Removes a quantity of the named item; reports whether the full amount
    /// was found and removed.  The amount must be positive: a zero request
    /// has no coherent answer (nothing is owed, yet nothing may be held), so
    /// it is left out rather than given an arbitrary one.
    pub fn remove_item(&mut self, item_id: &str, quantity: i32) -> (r: bool)
        requires
            inv_wf(old(self).slots@),
            quantity > 0,
        ensures
            final(self).slots@ == remove_from(old(self).slots@, item_id@, quantity as int, 0).0,
            r == remove_from(old(self).slots@, item_id@, quantity as int, 0).1,
            final(self).gold == old(self).gold,
            final(self).max_slots == old(self).max_slots,
    {
        let ghost s0 = self.slots@;
        let n: usize = self.slots.len();
        let mut remaining: i32 = quantity;
        let mut k: usize = 0;
        while k < n
            invariant
                k <= n == self.slots.len(),
                inv_wf(self.slots@),
                s0 == old(self).slots@,
                0 < remaining <= quantity,
                remove_from(s0, item_id@, quantity as int, 0) == remove_from(
                    self.slots@,
                    item_id@,
                    remaining as int,
                    k as int,
                ),
                self.gold == old(self).gold,
                self.max_slots == old(self).max_slots,
            decreases n - k,
        {
            let ghost pre = self.slots@;
            let matches_id: bool = match &self.slots[k].item {
                Some(existing) => crate::str_eq(existing.id.as_str(), item_id),
                None => false,
            };
            if matches_id {
                proof {
                    assert(pre[k as int].quantity >= 0);
                }
                let sl_q: i32 = self.slots[k].quantity;
                let can_remove: i32 = if sl_q < remaining {
                    sl_q
                } else {
                    remaining
                };
                let q2: i32 = sl_q - can_remove;
                let e: InventorySlot = self.slots.remove(k);
                if q2 == 0 {
                    self.slots.insert(k, InventorySlot { item: None, quantity: 0 });
                } else {
                    self.slots.insert(k, InventorySlot { item: e.item, quantity: q2 });
                }
                proof {
                    pre.remove_ensures(k as int);
                    if q2 == 0 {
                        assert(self.slots@ =~= pre.update(
                            k as int,
                            InventorySlot { item: None, quantity: 0 },
                        ));
                    } else {
                        assert(self.slots@ =~= pre.update(
                            k as int,
                            InventorySlot { item: pre[k as int].item, quantity: q2 },
                        ));
                    }
                    assert(remove_from(pre, item_id@, remaining as int, k as int) == (
                    if remaining as int - can_remove as int == 0 {
                        (self.slots@, true)
                    } else {
                        remove_from(
                            self.slots@,
                            item_id@,
                            remaining as int - can_remove as int,
                            k as int + 1,
                        )
                    }));
                    assert forall|m: int| 0 <= m < self.slots@.len() implies (
                    #[trigger] self.slots@[m].quantity) >= 0 by {
                        assert(pre[m].quantity >= 0);
                    }
                }
                remaining = remaining - can_remove;
                if remaining == 0 {
                    return true;
                }
            }
            k = k + 1;
        }
        false
    }

    /// Whether the slots hold at least `quantity` of the named item in
    /// total.
    pub fn has_item(&self, item_id: &str, quantity: i32) -> (r: bool)
        requires
            inv_wf(self.slots@),
        ensures
            r == (count_from(self.slots@, item_id@, 0) >= quantity as int),
    {
        let n: usize = self.slots.len();
        let mut total: i64 = 0;
        let mut k: usize = 0;
        while k < n
            invariant
                k <= n == self.slots.len(),
                inv_wf(self.slots@),
                0 <= total < 0x8000_0000i64,
                total + count_from(self.slots@, item_id@, k as int) == count_from(
                    self.slots@,
                    item_id@,
                    0,
                ),
            decreases n - k,
        {
            let matches_id: bool = match &self.slots[k].item {
                Some(existing) => crate::str_eq(existing.id.as_str(), item_id),
                None => false,
            };
            if matches_id {
                proof {
                    assert(self.slots@[k as int].quantity >= 0);
                }
                let bumped: i64 = total + self.slots[k].quantity as i64;
                if bumped >= quantity as i64 {
                    proof {
                        lemma_count_nonneg(self.slots@, item_id@, k as int + 1);
                    }
                    return true;
                }
                total = bumped;
            }
            k = k + 1;
        }
        total >= quantity as i64
    }
}

/// One line of dialogue with its choices, display conditions and effects.
#[derive(Debug)]
pub struct DialogueNode {
    pub id: String,
    pub speaker: String,
    pub text: String,
    pub choices: Vec<DialogueChoice>,
    pub conditions: Vec<DialogueCondition>,
    pub actions: Vec<DialogueAction>,
}

#[derive(Debug)]
pub struct DialogueChoice {
    pub text: String,
    pub next_node_id: String,
    pub conditions: Vec<DialogueCondition>,
}

#[derive(Debug)]
pub struct DialogueCondition {
    pub condition_type: String,
    pub target: String,
    pub value: String,
}

#[derive(Debug)]
pub struct DialogueAction {
    pub action_type: String,
    pub target: String,
    pub value: String,
}

/// One dialogue tree under its identifier.
#[derive(Debug)]
pub struct DialogueTree {
    pub id: String,
    pub nodes: Vec<DialogueNode>,
}

/// The value-level view of a condition: its three strings.
pub open spec fn cond_view(c: DialogueCondition) -> (Seq<char>, Seq<char>, Seq<char>) {
    (c.condition_type@, c.target@, c.value@)
}

/// The value-level view of an action: its three strings.
pub open spec fn action_view(a: DialogueAction) -> (Seq<char>, Seq<char>, Seq<char>) {
    (a.action_type@, a.target@, a.value@)
}

/// The value-level view of a choice.
pub open spec fn choice_view(c: DialogueChoice) -> (
    Seq<char>,
    Seq<char>,
    Seq<(Seq<char>, Seq<char>, Seq<char>)>,
) {
    (c.text@, c.next_node_id@, c.conditions@.map_values(|x: DialogueCondition| cond_view(x)))
}

/// The value-level view of a whole node.
pub open spec fn node_view(n: DialogueNode) -> (
    Seq<char>,
    Seq<char>,
    Seq<char>,
    Seq<(Seq<char>, Seq<char>, Seq<(Seq<char>, Seq<char>, Seq<char>)>)>,
    Seq<(Seq<char>, Seq<char>, Seq<char>)>,
    Seq<(Seq<char>, Seq<char>, Seq<char>)>,
) {
    (
        n.id@,
        n.speaker@,
        n.text@,
        n.choices@.map_values(|x: DialogueChoice| choice_view(x)),
        n.conditions@.map_values(|x: DialogueCondition| cond_view(x)),
        n.actions@.map_values(|x: DialogueAction| action_view(x)),
    )
}

/// The value-level view of the variable store.
pub open spec fn vars_view(v: Seq<(String, String)>) -> Seq<(Seq<char>, Seq<char>)> {
    v.map_values(|p: (String, String)| (p.0@, p.1@))
}

/// Writing one variable: the first slot under the key takes the value; a
/// missing key is appended.
pub open spec fn var_set_from(
    v: Seq<(Seq<char>, Seq<char>)>,
    key: Seq<char>,
    val: Seq<char>,
    k: int,
) -> Seq<(Seq<char>, Seq<char>)>
    decreases v.len() - k,
{
    if k < 0 || k >= v.len() {
        v.push((key, val))
    } else if v[k].0 == key {
        v.update(k, (key, val))
    } else {
        var_set_from(v, key, val, k + 1)
    }
}

/// One action against the variables: only `set_variable` writes; the other
/// kinds are hooks for the surrounding game and leave the store alone.
pub open spec fn action_step(
    v: Seq<(Seq<char>, Seq<char>)>,
    a: (Seq<char>, Seq<char>, Seq<char>),
) -> Seq<(Seq<char>, Seq<char>)> {
    if a.0 == "set_variable"@ {
        var_set_from(v, a.1, a.2, 0)
    } else {
        v
    }
}

/// Running the actions from position `k` onward, in order.
pub open spec fn apply_actions(
    v: Seq<(Seq<char>, Seq<char>)>,
    acts: Seq<(Seq<char>, Seq<char>, Seq<char>)>,
    k: int,
) -> Seq<(Seq<char>, Seq<char>)>
    decreases acts.len() - k,
{
    if k < 0 || k >= acts.len() {
        v
    } else {
        apply_actions(action_step(v, acts[k]), acts, k + 1)
    }
}

/// The first index among the trees whose identifier reads `id`, or minus
/// one.
pub open spec fn find_tree(s: Seq<DialogueTree>, id: Seq<char>) -> int
    decreases s.len(),
{
    if s.len() == 0 {
        -1
    } else if s[0].id@ == id {
        0
    } else {
        let r = find_tree(s.drop_first(), id);
        if r < 0 {
            -1
        } else {
            r + 1
        }
    }
}

/// The first index among the nodes whose identifier reads `id`, or minus
/// one.
pub open spec fn find_node(s: Seq<DialogueNode>, id: Seq<char>) -> int
    decreases s.len(),
{
    if s.len() == 0 {
        -1
    } else if s[0].id@ == id {
        0
    } else {
        let r = find_node(s.drop_first(), id);
        if r < 0 {
            -1
        } else {
            r + 1
        }
    }
}

proof fn lemma_find_tree_is(s: Seq<DialogueTree>, id: Seq<char>, k: int)
    requires
        0 <= k < s.len(),
        s[k].id@ == id,
        forall|m: int| 0 <= m < k ==> (#[trigger] s[m].id@) != id,
    ensures
        find_tree(s, id) == k,
    decreases k,
{
    if s[0].id@ == id {
        assert(k == 0);
    } else {
        assert(forall|m: int|
            0 <= m < k - 1 ==> (#[trigger] s.drop_first()[m].id@) == s[m + 1].id@ && s[m + 1].id@
                != id);
        lemma_find_tree_is(s.drop_first(), id, k - 1);
    }
}

proof fn lemma_find_tree_none(s: Seq<DialogueTree>, id: Seq<char>)
    requires
        forall|m: int| 0 <= m < s.len() ==> (#[trigger] s[m].id@) != id,
    ensures
        find_tree(s, id) == -1,
    decreases s.len(),
{
    if s.len() > 0 {
        assert(forall|m: int|
            0 <= m < s.len() - 1 ==> (#[trigger] s.drop_first()[m].id@) == s[m + 1].id@ && s[m
                + 1].id@ != id);
        lemma_find_tree_none(s.drop_first(), id);
    }
}

proof fn lemma_find_node_is(s: Seq<DialogueNode>, id: Seq<char>, k: int)
    requires
        0 <= k < s.len(),
        s[k].id@ == id,
        forall|m: int| 0 <= m < k ==> (#[trigger] s[m].id@) != id,
    ensures
        find_node(s, id) == k,
    decreases k,
{
    if s[0].id@ == id {
        assert(k == 0);
    } else {
        assert(forall|m: int|
            0 <= m < k - 1 ==> (#[trigger] s.drop_first()[m].id@) == s[m + 1].id@ && s[m + 1].id@
                != id);
        lemma_find_node_is(s.drop_first(), id, k - 1);
    }
}

proof fn lemma_find_node_none(s: Seq<DialogueNode>, id: Seq<char>)
    requires
        forall|m: int| 0 <= m < s.len() ==> (#[trigger] s[m].id@) != id,
    ensures
        find_node(s, id) == -1,
    decreases s.len(),
{
    if s.len() > 0 {
        assert(forall|m: int|
            0 <= m < s.len() - 1 ==> (#[trigger] s.drop_first()[m].id@) == s[m + 1].id@ && s[m
                + 1].id@ != id);
        lemma_find_node_none(s.drop_first(), id);
    }
}

fn clone_condition(c: &DialogueCondition) -> (r: DialogueCondition)
    ensures
        cond_view(r) == cond_view(*c),
{
    DialogueCondition {
        condition_type: c.condition_type.clone(),
        target: c.target.clone(),
        value: c.value.clone(),
    }
}

fn clone_action(a: &DialogueAction) -> (r: DialogueAction)
    ensures
        action_view(r) == action_view(*a),
{
    DialogueAction {
        action_type: a.action_type.clone(),
        target: a.target.clone(),
        value: a.value.clone(),
    }
}

fn clone_conditions(v: &Vec<DialogueCondition>) -> (r: Vec<DialogueCondition>)
    ensures
        r@.map_values(|x: DialogueCondition| cond_view(x)) == v@.map_values(
            |x: DialogueCondition| cond_view(x),
        ),
{
    let n: usize = v.len();
    let mut out: Vec<DialogueCondition> = Vec::new();
    let mut i: usize = 0;
    while i < n
        invariant
            i <= n == v@.len(),
            out@.len() == i,
            forall|m: int| 0 <= m < i ==> cond_view(#[trigger] out@[m]) == cond_view(v@[m]),
        decreases n - i,
    {
        out.push(clone_condition(&v[i]));
        i = i + 1;
    }
    proof {
        assert(out@.map_values(|x: DialogueCondition| cond_view(x)) =~= v@.map_values(
            |x: DialogueCondition| cond_view(x),
        ));
    }
    out
}

fn clone_actions(v: &Vec<DialogueAction>) -> (r: Vec<DialogueAction>)
    ensures
        r@.map_values(|x: DialogueAction| action_view(x)) == v@.map_values(
            |x: DialogueAction| action_view(x),
        ),
        r@.len() == v@.len(),
        forall|m: int| 0 <= m < v@.len() ==> action_view(#[trigger] r@[m]) == action_view(v@[m]),
{
    let n: usize = v.len();
    let mut out: Vec<DialogueAction> = Vec::new();
    let mut i: usize = 0;
    while i < n
        invariant
            i <= n == v@.len(),
            out@.len() == i,
            forall|m: int| 0 <= m < i ==> action_view(#[trigger] out@[m]) == action_view(v@[m]),
        decreases n - i,
    {
        out.push(clone_action(&v[i]));
        i = i + 1;
    }
    proof {
        assert(out@.map_values(|x: DialogueAction| action_view(x)) =~= v@.map_values(
            |x: DialogueAction| action_view(x),
        ));
    }
    out
}

fn clone_choice(c: &DialogueChoice) -> (r: DialogueChoice)
    ensures
        choice_view(r) == choice_view(*c),
{
    DialogueChoice {
        text: c.text.clone(),
        next_node_id: c.next_node_id.clone(),
        conditions: clone_conditions(&c.conditions),
    }
}

fn clone_node(n: &DialogueNode) -> (r: DialogueNode)
    ensures
        node_view(r) == node_view(*n),
{
    let nc: usize = n.choices.len();
    let mut choices: Vec<DialogueChoice> = Vec::new();
    let mut i: usize = 0;
    while i < nc
        invariant
            i <= nc == n.choices@.len(),
            choices@.len() == i,
            forall|m: int|
                0 <= m < i ==> choice_view(#[trigger] choices@[m]) == choice_view(n.choices@[m]),
        decreases nc - i,
    {
        choices.push(clone_choice(&n.choices[i]));
        i = i + 1;
    }
    proof {
        assert(choices@.map_values(|x: DialogueChoice| choice_view(x)) =~= n.choices@.map_values(
            |x: DialogueChoice| choice_view(x),
        ));
    }
    DialogueNode {
        id: n.id.clone(),
        speaker: n.speaker.clone(),
        text: n.text.clone(),
        choices,
        conditions: clone_conditions(&n.conditions),
        actions: clone_actions(&n.actions),
    }
}

/// The dialogue engine: the tree set, the running dialogue and node, and the
/// variable store the actions write.
pub struct DialogueSystem {
    pub current_dialogue: Option<String>,
    pub current_node: Option<DialogueNode>,
    pub dialogue_trees: Vec<DialogueTree>,
    pub variables: Vec<(String, String)>,
}

impl DialogueSystem {
    /// A fresh engine: no trees, nothing running, no variables.
    pub fn new() -> (r: Self)
        ensures
            r.current_dialogue is None,
            r.current_node is None,
            r.dialogue_trees@ == Seq::<DialogueTree>::empty(),
            r.variables@ == Seq::<(String, String)>::empty(),
    {
        DialogueSystem {
            current_dialogue: None,
            current_node: None,
            dialogue_trees: Vec::new(),
            variables: Vec::new(),
        }
    }

    /// The index of the tree under `id`, if any.
    fn find_tree_index(&self, id: &str) -> (r: Option<usize>)
        ensures
            match r {
                Some(i) => find_tree(self.dialogue_trees@, id@) == i as int && i
                    < self.dialogue_trees@.len(),
                None => find_tree(self.dialogue_trees@, id@) == -1,
            },
    {
        let ghost s = self.dialogue_trees@;
        let n: usize = self.dialogue_trees.len();
        let mut i: usize = 0;
        while i < n
            invariant
                i <= n == self.dialogue_trees.len(),
                self.dialogue_trees@ == s,
                forall|m: int| 0 <= m < i ==> (#[trigger] s[m].id@) != id@,
            decreases n - i,
        {
            if crate::str_eq(self.dialogue_trees[i].id.as_str(), id) {
                proof {
                    lemma_find_tree_is(s, id@, i as int);
                }
                return Some(i);
            }
            i = i + 1;
        }
        proof {
            lemma_find_tree_none(s, id@);
        }
        None
    }

    /// Begins the named dialogue: it becomes current, and when its tree
    /// exists and has a first node, that node becomes current.
    pub fn start_dialogue(&mut self, dialogue_id: &str)
        ensures
            final(self).current_dialogue matches Some(d) && d@ == dialogue_id@,
            ({
                let t = find_tree(old(self).dialogue_trees@, dialogue_id@);
                if t >= 0 && old(self).dialogue_trees@[t].nodes@.len() > 0 {
                    final(self).current_node matches Some(n) && node_view(n) == node_view(
                        old(self).dialogue_trees@[t].nodes@[0],
                    )
                } else {
                    final(self).current_node == old(self).current_node
                }
            }),
            final(self).dialogue_trees == old(self).dialogue_trees,
            final(self).variables == old(self).variables,
    {
        self.current_dialogue = Some(dialogue_id.to_owned());
        let idx: Option<usize> = self.find_tree_index(dialogue_id);
        match idx {
            Some(t) => {
                if self.dialogue_trees[t].nodes.len() > 0 {
                    let first: DialogueNode = clone_node(&self.dialogue_trees[t].nodes[0]);
                    self.current_node = Some(first);
                }
            },
            None => {},
        }
    }

    /// Writes one variable: the first entry under the key takes the value,
    /// a missing key is appended.
    fn set_variable(&mut self, key: &str, value: &str)
        ensures
            vars_view(final(self).variables@) == var_set_from(
                vars_view(old(self).variables@),
                key@,
                value@,
                0,
            ),
            final(self).current_dialogue == old(self).current_dialogue,
            final(self).current_node == old(self).current_node,
            final(self).dialogue_trees == old(self).dialogue_trees,
    {
        let ghost v0 = vars_view(self.variables@);
        let n: usize = self.variables.len();
        let mut i: usize = 0;
        while i < n
            invariant
                i <= n == self.variables.len(),
                v0 == vars_view(self.variables@),
                forall|m: int| 0 <= m < i ==> (#[trigger] self.variables@[m].0@) != key@,
                forall|m: int| 0 <= m < i ==> v0[m].0 != key@,
                *self == *old(self),
            decreases n - i,
        {
            if crate::str_eq(self.variables[i].0.as_str(), key) {
                self.variables.set(i, (key.to_owned(), value.to_owned()));
                proof {
                    assert(vars_view(self.variables@) =~= v0.update(i as int, (key@, value@)));
                    assert(var_set_from(v0, key@, value@, 0) == var_set_from(
                        v0,
                        key@,
                        value@,
                        i as int,
                    )) by {
                        lemma_var_set_scan(v0, key@, value@, i as int);
                    }
                }
                return ;
            }
            i = i + 1;
        }
        self.variables.push((key.to_owned(), value.to_owned()));
        proof {
            assert(vars_view(self.variables@) =~= v0.push((key@, value@)));
            lemma_var_set_scan(v0, key@, value@, n as int);
        }
    }

    /// Takes the indexed choice of the current node: the node's actions run
    /// against the variables, then the dialogue moves to the node the choice
    /// names, or ends when no node carries that name.  Without a current
    /// node, or with the index out of range, nothing changes.
    pub fn choose_option(&mut self, choice_index: usize)
        ensures
            (old(self).current_node is None || (old(self).current_node matches Some(cn)
                && choice_index >= cn.choices@.len())) ==> *final(self) == *old(self),
            old(self).current_node matches Some(cn) ==> choice_index < cn.choices@.len() ==> ({
                let acts = cn.actions@.map_values(|x: DialogueAction| action_view(x));
                let next_id = cn.choices@[choice_index as int].next_node_id@;
                &&& vars_view(final(self).variables@) == apply_actions(
                    vars_view(old(self).variables@),
                    acts,
                    0,
                )
                &&& final(self).dialogue_trees == old(self).dialogue_trees
                &&& match old(self).current_dialogue {
                    None => final(self).current_dialogue is None && final(self).current_node
                        == old(self).current_node,
                    Some(d) => {
                        let t = find_tree(old(self).dialogue_trees@, d@);
                        if t < 0 {
                            &&& final(self).current_dialogue matches Some(d2) && d2@ == d@
                            &&& final(self).current_node == old(self).current_node
                        } else {
                            let nodes = old(self).dialogue_trees@[t].nodes@;
                            let j = find_node(nodes, next_id);
                            if j >= 0 {
                                &&& final(self).current_dialogue matches Some(d2) && d2@ == d@
                                &&& final(self).current_node matches Some(n2) && node_view(n2)
                                    == node_view(nodes[j])
                            } else {
                                &&& final(self).current_dialogue is None
                                &&& final(self).current_node is None
                            }
                        }
                    },
                }
            }),
    {
        let proceed: bool = match &self.current_node {
            Some(node) => choice_index < node.choices.len(),
            None => false,
        };
        if !proceed {
            return ;
        }
        let (next_node_id, actions): (String, Vec<DialogueAction>) = match &self.current_node {
            Some(node) => (
                node.choices[choice_index].next_node_id.clone(),
                clone_actions(&node.actions),
            ),
            None => (String::new(), Vec::new()),
        };
        let ghost acts = match old(self).current_node {
            Some(cn) => cn.actions@.map_values(|x: DialogueAction| action_view(x)),
            None => Seq::empty(),
        };
        let ghost v0 = vars_view(self.variables@);
        // Run the node's actions, in order.
        let na: usize = self.actions_len(&actions);
        let mut k: usize = 0;
        while k < na
            invariant
                k <= na == actions@.len(),
                acts == actions@.map_values(|x: DialogueAction| action_view(x)),
                apply_actions(v0, acts, 0) == apply_actions(
                    vars_view(self.variables@),
                    acts,
                    k as int,
                ),
                self.current_dialogue == old(self).current_dialogue,
                self.current_node == old(self).current_node,
                self.dialogue_trees == old(self).dialogue_trees,
            decreases na - k,
        {
            let ghost vpre = vars_view(self.variables@);
            if crate::str_eq(actions[k].action_type.as_str(), "set_variable") {
                let key: String = actions[k].target.clone();
                let value: String = actions[k].value.clone();
                self.set_variable(key.as_str(), value.as_str());
            }
            proof {
                assert(acts[k as int] == action_view(actions@[k as int]));
                assert(action_step(vpre, acts[k as int]) == vars_view(self.variables@));
            }
            k = k + 1;
        }
        // Move to the node the choice names, or end the dialogue.
        let dialogue_id: Option<String> = match &self.current_dialogue {
            Some(d) => Some(d.clone()),
            None => None,
        };
        match dialogue_id {
            Some(d) => {
                let t_opt: Option<usize> = self.find_tree_index(d.as_str());
                match t_opt {
                    Some(t) => {
                        let j_opt: Option<usize> = self.find_node_index(t, next_node_id.as_str());
                        match j_opt {
                            Some(j) => {
                                let node: DialogueNode = clone_node(
                                    &self.dialogue_trees[t].nodes[j],
                                );
                                self.current_node = Some(node);
                            },
                            None => {
                                self.current_dialogue = None;
                                self.current_node = None;
                            },
                        }
                    },
                    None => {},
                }
            },
            None => {},
        }
    }

    /// The length of an action list (a seam for the ghost bookkeeping).
    fn actions_len(&self, actions: &Vec<DialogueAction>) -> (r: usize)
        ensures
            r == actions@.len(),
    {
        actions.len()
    }

    /// The index of the node under `id` within tree `t`, if any.
    fn find_node_index(&self, t: usize, id: &str) -> (r: Option<usize>)
        requires
            t < self.dialogue_trees@.len(),
        ensures
            match r {
                Some(j) => find_node(self.dialogue_trees@[t as int].nodes@, id@) == j as int && j
                    < self.dialogue_trees@[t as int].nodes@.len(),
                None => find_node(self.dialogue_trees@[t as int].nodes@, id@) == -1,
            },
    {
        let ghost s = self.dialogue_trees@[t as int].nodes@;
        let n: usize = self.dialogue_trees[t].nodes.len();
        let mut i: usize = 0;
        while i < n
            invariant
                t < self.dialogue_trees@.len(),
                i <= n == self.dialogue_trees@[t as int].nodes@.len(),
                self.dialogue_trees@[t as int].nodes@ == s,
                forall|m: int| 0 <= m < i ==> (#[trigger] s[m].id@) != id@,
            decreases n - i,
        {
            if crate::str_eq(self.dialogue_trees[t].nodes[i].id.as_str(), id) {
                proof {
                    lemma_find_node_is(s, id@, i as int);
                }
                return Some(i);
            }
            i = i + 1;
        }
        proof {
            lemma_find_node_none(s, id@);
        }
        None
    }
}

/// Scanning past non-matching keys leaves the write unchanged.
proof fn lemma_var_set_scan(v: Seq<(Seq<char>, Seq<char>)>, key: Seq<char>, val: Seq<char>, k: int)
    requires
        0 <= k <= v.len(),
        forall|m: int| 0 <= m < k ==> (#[trigger] v[m].0) != key,
    ensures
        var_set_from(v, key, val, 0) == var_set_from(v, key, val, k),
    decreases k,
{
    if k > 0 {
        lemma_var_set_scan(v, key, val, k - 1);
    }
}

/// Graphics presets.
#[derive(Debug, Clone, PartialEq, Eq, Structural)]
pub enum GraphicsQuality {
    Low,
    Medium,
    High,
    Ultra,
}

/// Difficulty presets.
#[derive(Debug, Clone, PartialEq, Eq, Structural)]
pub enum Difficulty {
    Easy,
    Normal,
    Hard,
    Nightmare,
}

} // verus!
