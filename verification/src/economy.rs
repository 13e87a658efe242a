//! What the trade loop shares with the dialogue queue: professions, goods
//! and inventories, the wellbeing categories they satisfy, and the requests
//! that trades and schedules put into the queue.
use std::collections::HashMap;
use vstd::prelude::*;

use crate::queue::DialogueRequestQueue;
use crate::types::{
    npc_label, DialogueContext, DialogueContextEvent, DialogueContextEventView,
    DialogueContextView, DialogueRequest, DialogueRequestId, DialogueRequestView,
    DialogueTopicHint, NpcId, TradeContext, TradeContextReason, TradeContextView,
    TradeDescriptor, TradeDescriptorView,
};

verus! {

/// The professions of the trade loop.
#[derive(Debug, Clone, Copy, PartialEq, Eq, Hash, Structural)]
pub enum Profession {
    Farmer,
    Miller,
    Blacksmith,
}

/// The word for a profession.
pub open spec fn profession_label(profession: Profession) -> Seq<char> {
    match profession {
        Profession::Farmer => "farmer"@,
        Profession::Miller => "miller"@,
        Profession::Blacksmith => "blacksmith"@,
    }
}

impl Profession {
    pub fn label(self) -> (label: &'static str)
        ensures
            label@ == profession_label(self),
    {
        match self {
            Profession::Farmer => "farmer",
            Profession::Miller => "miller",
            Profession::Blacksmith => "blacksmith",
        }
    }
}

/// The goods of the trade loop.
#[derive(Debug, Clone, Copy, PartialEq, Eq, Hash, Structural)]
pub enum TradeGood {
    Grain,
    Flour,
    Tools,
}

/// The words for a good.
pub open spec fn trade_good_label(good: TradeGood) -> Seq<char> {
    match good {
        TradeGood::Grain => "grain crate"@,
        TradeGood::Flour => "flour crate"@,
        TradeGood::Tools => "tool crate"@,
    }
}

impl TradeGood {
    pub fn label(self) -> (label: &'static str)
        ensures
            label@ == trade_good_label(self),
    {
        match self {
            TradeGood::Grain => "grain crate",
            TradeGood::Flour => "flour crate",
            TradeGood::Tools => "tool crate",
        }
    }
}

/// Marks the work spot of a profession.
#[derive(Debug, Clone, Copy, PartialEq, Eq, Hash, Structural)]
pub struct ProfessionCrate {
    pub profession: Profession,
}

/// Marks a good shown near the work spot of a profession.
#[derive(Debug, Clone, Copy, PartialEq, Eq, Hash, Structural)]
pub struct TradeGoodPlaceholder {
    pub profession: Profession,
    pub good: TradeGood,
}

/// One stack of an inventory.
#[derive(Debug, Clone, Copy)]
pub struct InventoryItem {
    pub good: TradeGood,
    pub quantity: u32,
}

/// The quantity of `good` in the first stack that holds it; zero where none does.
pub open spec fn stock_in(items: Seq<InventoryItem>, good: TradeGood) -> u32
    decreases items.len(),
{
    if items.len() == 0 {
        0
    } else if items[0].good == good {
        items[0].quantity
    } else {
        stock_in(items.skip(1), good)
    }
}

/// No two stacks hold the same good.
pub open spec fn one_stack_per_good(items: Seq<InventoryItem>) -> bool {
    forall|i: int, j: int| 0 <= i < j < items.len() ==> items[i].good != items[j].good
}

/// The sum of two quantities, stopping at the largest.
pub open spec fn capped_sum(a: u32, b: u32) -> u32 {
    if a + b > u32::MAX {
        u32::MAX
    } else {
        (a + b) as u32
    }
}

/// Where no stack before `index` holds `good`, the stock is that of the rest.
proof fn lemma_stock_skips(items: Seq<InventoryItem>, good: TradeGood, index: int)
    requires
        0 <= index <= items.len(),
        forall|k: int| 0 <= k < index ==> items[k].good != good,
    ensures
        stock_in(items, good) == stock_in(items.skip(index), good),
    decreases index,
{
    if index > 0 {
        assert(items.skip(1).skip(index - 1) =~= items.skip(index));
        assert forall|k: int| 0 <= k < index - 1 implies items.skip(1)[k].good != good by {
            assert(items.skip(1)[k] == items[k + 1]);
        }
        lemma_stock_skips(items.skip(1), good, index - 1);
    } else {
        assert(items.skip(0) =~= items);
    }
}

/// The stock of a good is that of the first stack that holds it.
proof fn lemma_stock_at(items: Seq<InventoryItem>, good: TradeGood, index: int)
    requires
        0 <= index < items.len(),
        items[index].good == good,
        forall|k: int| 0 <= k < index ==> items[k].good != good,
    ensures
        stock_in(items, good) == items[index].quantity,
{
    lemma_stock_skips(items, good, index);
    assert(items.skip(index)[0] == items[index]);
}

/// Where no stack holds a good, its stock is zero.
proof fn lemma_stock_absent(items: Seq<InventoryItem>, good: TradeGood)
    requires
        forall|k: int| 0 <= k < items.len() ==> items[k].good != good,
    ensures
        stock_in(items, good) == 0,
{
    lemma_stock_skips(items, good, items.len() as int);
}

/// Replacing a stack by another of the same good changes no other good's stock.
proof fn lemma_stock_update(
    items: Seq<InventoryItem>,
    index: int,
    item: InventoryItem,
    other: TradeGood,
)
    requires
        0 <= index < items.len(),
        items[index].good == item.good,
        other != item.good,
    ensures
        stock_in(items.update(index, item), other) == stock_in(items, other),
    decreases items.len(),
{
    let after = items.update(index, item);
    if index == 0 {
        assert(after.skip(1) =~= items.skip(1));
    } else {
        assert(after.skip(1) =~= items.skip(1).update(index - 1, item));
        assert(items.skip(1)[index - 1] == items[index]);
        lemma_stock_update(items.skip(1), index - 1, item, other);
    }
}

/// A new stack at the end changes no other good's stock.
proof fn lemma_stock_push(items: Seq<InventoryItem>, item: InventoryItem, other: TradeGood)
    requires
        other != item.good,
    ensures
        stock_in(items.push(item), other) == stock_in(items, other),
    decreases items.len(),
{
    let after = items.push(item);
    if items.len() == 0 {
        assert(after[0] == item);
        assert(after.skip(1) =~= Seq::<InventoryItem>::empty());
        assert(stock_in(after.skip(1), other) == 0);
    } else {
        assert(after[0] == items[0]);
        assert(after.skip(1) =~= items.skip(1).push(item));
        lemma_stock_push(items.skip(1), item, other);
    }
}

/// Taking a stack away changes no other good's stock.
proof fn lemma_stock_remove(items: Seq<InventoryItem>, index: int, other: TradeGood)
    requires
        0 <= index < items.len(),
        items[index].good != other,
    ensures
        stock_in(items.remove(index), other) == stock_in(items, other),
    decreases items.len(),
{
    let after = items.remove(index);
    if index == 0 {
        assert(after =~= items.skip(1));
    } else {
        assert(after.skip(1) =~= items.skip(1).remove(index - 1));
        assert(after[0] == items[0]);
        assert(items.skip(1)[index - 1] == items[index]);
        lemma_stock_remove(items.skip(1), index - 1, other);
    }
}

/// Stacks of goods, at most one per good.
#[derive(Debug)]
pub struct Inventory {
    items: Vec<InventoryItem>,
}

impl Clone for Inventory {
    fn clone(&self) -> (copy: Self)
        ensures
            forall|good: TradeGood| copy.stock(good) == self.stock(good),
            copy.wf() == self.wf(),
    {
        let copy = Self { items: self.items.clone() };
        assert(copy.items@ =~= self.items@);
        copy
    }
}

impl Inventory {
    /// The quantity of `good` in the inventory.
    pub closed spec fn stock(&self, good: TradeGood) -> u32 {
        stock_in(self.items@, good)
    }

    /// No two stacks hold the same good.
    pub closed spec fn wf(&self) -> bool {
        one_stack_per_good(self.items@)
    }

    /// The index of the first stack that holds `good`, if any.
    fn position_of(&self, good: TradeGood) -> (found: Option<usize>)
        ensures
            match found {
                Some(index) => index < self.items.len() && self.items@[index as int].good == good
                    && forall|k: int| 0 <= k < index ==> self.items@[k].good != good,
                None => forall|k: int| 0 <= k < self.items.len() ==> self.items@[k].good != good,
            },
    {
        let mut i: usize = 0;
        while i < self.items.len()
            invariant
                i <= self.items.len(),
                forall|k: int| 0 <= k < i ==> self.items@[k].good != good,
            decreases self.items.len() - i,
        {
            if self.items[i].good == good {
                return Some(i);
            }
            i += 1;
        }
        None
    }

    /// Adds `quantity` of `good`; the stock stops at the largest quantity.
    pub fn add_good(&mut self, good: TradeGood, quantity: u32)
        ensures
            final(self).stock(good) == capped_sum(old(self).stock(good), quantity),
            forall|other: TradeGood|
                other != good ==> final(self).stock(other) == old(self).stock(other),
            old(self).wf() ==> final(self).wf(),
    {
        if quantity == 0 {
            return;
        }
        let ghost before = self.items@;
        match self.position_of(good) {
            Some(index) => {
                let raised = self.items[index].quantity.saturating_add(quantity);
                self.items[index] = InventoryItem { good, quantity: raised };
                proof {
                    let item = self.items@[index as int];
                    assert(self.items@ =~= before.update(index as int, item));
                    lemma_stock_at(before, good, index as int);
                    lemma_stock_at(self.items@, good, index as int);
                    assert forall|other: TradeGood| other != good implies stock_in(
                        self.items@,
                        other,
                    ) == stock_in(before, other) by {
                        lemma_stock_update(before, index as int, item, other);
                    }
                }
            },
            None => {
                self.items.push(InventoryItem { good, quantity });
                proof {
                    let item = self.items@[before.len() as int];
                    assert(self.items@ =~= before.push(item));
                    lemma_stock_absent(before, good);
                    lemma_stock_at(self.items@, good, before.len() as int);
                    assert forall|other: TradeGood| other != good implies stock_in(
                        self.items@,
                        other,
                    ) == stock_in(before, other) by {
                        lemma_stock_push(before, item, other);
                    }
                }
            },
        }
    }

    /// Takes `quantity` of `good` out, where there is that much, and tells
    /// whether it did. Taking nothing always succeeds.
    pub fn remove_good(&mut self, good: TradeGood, quantity: u32) -> (taken: bool)
        ensures
            old(self).wf() ==> taken == (quantity == 0 || old(self).stock(good) >= quantity),
            old(self).wf() ==> final(self).stock(good) == if taken {
                (old(self).stock(good) - quantity) as u32
            } else {
                old(self).stock(good)
            },
            forall|other: TradeGood|
                other != good ==> final(self).stock(other) == old(self).stock(other),
            old(self).wf() ==> final(self).wf(),
    {
        if quantity == 0 {
            return true;
        }
        let ghost before = self.items@;
        match self.position_of(good) {
            Some(index) => {
                proof {
                    lemma_stock_at(before, good, index as int);
                }
                if self.items[index].quantity < quantity {
                    return false;
                }
                let left = self.items[index].quantity - quantity;
                if left == 0 {
                    self.items.remove(index);
                    proof {
                        assert(self.items@ =~= before.remove(index as int));
                        assert forall|other: TradeGood| other != good implies stock_in(
                            self.items@,
                            other,
                        ) == stock_in(before, other) by {
                            lemma_stock_remove(before, index as int, other);
                        }
                        if one_stack_per_good(before) {
                            assert forall|k: int| 0 <= k < self.items@.len() implies self.items@[k].good
                                != good by {
                                if k < index {
                                    assert(self.items@[k] == before[k]);
                                } else {
                                    assert(self.items@[k] == before[k + 1]);
                                }
                            }
                            lemma_stock_absent(self.items@, good);
                            assert forall|i: int, j: int|
                                0 <= i < j < self.items@.len() implies self.items@[i].good
                                != self.items@[j].good by {
                                let a = if i < index {
                                    i
                                } else {
                                    i + 1
                                };
                                let b = if j < index {
                                    j
                                } else {
                                    j + 1
                                };
                                assert(self.items@[i] == before[a]);
                                assert(self.items@[j] == before[b]);
                            }
                        }
                    }
                } else {
                    self.items[index] = InventoryItem { good, quantity: left };
                    proof {
                        let item = self.items@[index as int];
                        assert(self.items@ =~= before.update(index as int, item));
                        lemma_stock_at(self.items@, good, index as int);
                        assert forall|other: TradeGood| other != good implies stock_in(
                            self.items@,
                            other,
                        ) == stock_in(before, other) by {
                            lemma_stock_update(before, index as int, item, other);
                        }
                    }
                }
                true
            },
            None => {
                proof {
                    lemma_stock_absent(before, good);
                }
                false
            },
        }
    }

    /// The quantity of `good` in the inventory.
    pub fn quantity_of(&self, good: TradeGood) -> (quantity: u32)
        ensures
            quantity == self.stock(good),
    {
        match self.position_of(good) {
            Some(index) => {
                proof {
                    lemma_stock_at(self.items@, good, index as int);
                }
                self.items[index].quantity
            },
            None => {
                proof {
                    lemma_stock_absent(self.items@, good);
                }
                0
            },
        }
    }
}

impl Default for Inventory {
    fn default() -> (inventory: Self)
        ensures
            inventory.wf(),
            forall|good: TradeGood| inventory.stock(good) == 0,
    {
        Self { items: Vec::new() }
    }
}

/// Why a trade was made.
#[derive(Debug, Clone, Copy, PartialEq, Eq, Structural)]
pub enum TradeReason {
    Production,
    Processing,
    Exchange,
}

/// A trade that was made.
#[derive(Debug, Clone, Copy)]
pub struct TradeCompletedEvent {
    pub day: u64,
    pub from: Option<NpcId>,
    pub to: Option<NpcId>,
    pub good: TradeGood,
    pub quantity: u32,
    pub reason: TradeReason,
}

/// High-level wellbeing categories used when evaluating profession needs.
#[derive(Debug, Clone, Copy, PartialEq, Eq, Hash, Structural)]
pub enum DependencyCategory {
    Food,
    Tools,
    Housing,
}

/// The word for a category.
pub open spec fn category_label(category: DependencyCategory) -> Seq<char> {
    match category {
        DependencyCategory::Food => "food"@,
        DependencyCategory::Tools => "tools"@,
        DependencyCategory::Housing => "housing"@,
    }
}

impl DependencyCategory {
    pub fn label(self) -> (label: &'static str)
        ensures
            label@ == category_label(self),
    {
        match self {
            DependencyCategory::Food => "food",
            DependencyCategory::Tools => "tools",
            DependencyCategory::Housing => "housing",
        }
    }
}

/// Whether a profession satisfied its dependency categories on a day.
#[derive(Debug)]
pub struct ProfessionDependencyUpdateEvent {
    pub day: u64,
    pub npc: NpcId,
    pub profession: Profession,
    pub satisfied_categories: Vec<DependencyCategory>,
    pub missing_categories: Vec<DependencyCategory>,
}

impl Clone for ProfessionDependencyUpdateEvent {
    fn clone(&self) -> (copy: Self)
        ensures
            copy.day == self.day,
            copy.npc == self.npc,
            copy.profession == self.profession,
            copy.satisfied_categories@ == self.satisfied_categories@,
            copy.missing_categories@ == self.missing_categories@,
    {
        let satisfied_categories = self.satisfied_categories.clone();
        let missing_categories = self.missing_categories.clone();
        assert(satisfied_categories@ =~= self.satisfied_categories@);
        assert(missing_categories@ =~= self.missing_categories@);
        Self {
            day: self.day,
            npc: self.npc,
            profession: self.profession,
            satisfied_categories,
            missing_categories,
        }
    }
}

/// The days for which the economy was last planned and last evaluated.
#[derive(Debug, Default)]
pub struct EconomyDayState {
    pub last_planned_day: Option<u64>,
    pub last_dependency_evaluation_day: Option<u64>,
}

/// The number under which a profession is kept in a map.
pub open spec fn profession_key(profession: Profession) -> u8 {
    match profession {
        Profession::Farmer => 0,
        Profession::Miller => 1,
        Profession::Blacksmith => 2,
    }
}

/// The number under which a good is kept in a map.
pub open spec fn good_key(good: TradeGood) -> u8 {
    match good {
        TradeGood::Grain => 0,
        TradeGood::Flour => 1,
        TradeGood::Tools => 2,
    }
}

/// The categories kept under `key`; none where nothing is kept there.
pub open spec fn categories_at(map: Map<u8, Vec<DependencyCategory>>, key: u8) -> Seq<
    DependencyCategory,
> {
    if map.contains_key(key) {
        map[key]@
    } else {
        Seq::empty()
    }
}

fn key_of_profession(profession: Profession) -> (key: u8)
    ensures
        key == profession_key(profession),
{
    match profession {
        Profession::Farmer => 0,
        Profession::Miller => 1,
        Profession::Blacksmith => 2,
    }
}

fn key_of_good(good: TradeGood) -> (key: u8)
    ensures
        key == good_key(good),
{
    match good {
        TradeGood::Grain => 0,
        TradeGood::Flour => 1,
        TradeGood::Tools => 2,
    }
}

/// Which categories each profession needs and each good satisfies. A
/// profession or good without an entry needs or satisfies nothing.
#[derive(Debug)]
pub struct EconomyDependencyMatrix {
    profession_requirements: HashMap<u8, Vec<DependencyCategory>>,
    good_categories: HashMap<u8, Vec<DependencyCategory>>,
}

impl EconomyDependencyMatrix {
    /// The categories that `profession` needs.
    pub closed spec fn required(&self, profession: Profession) -> Seq<DependencyCategory> {
        categories_at(self.profession_requirements@, profession_key(profession))
    }

    /// The categories that `good` satisfies.
    pub closed spec fn satisfied_by(&self, good: TradeGood) -> Seq<DependencyCategory> {
        categories_at(self.good_categories@, good_key(good))
    }

    /// Sets the categories that `profession` needs.
    pub fn set_profession_requirements(
        &mut self,
        profession: Profession,
        categories: Vec<DependencyCategory>,
    )
        ensures
            final(self).required(profession) == categories@,
            forall|other: Profession|
                other != profession ==> final(self).required(other) == old(self).required(other),
            forall|good: TradeGood| final(self).satisfied_by(good) == old(self).satisfied_by(good),
    {
        broadcast use vstd::std_specs::hash::group_hash_axioms;

        self.profession_requirements.insert(key_of_profession(profession), categories);
    }

    /// The categories that `profession` needs.
    pub fn requirements(&self, profession: Profession) -> (categories: &[DependencyCategory])
        ensures
            categories@ == self.required(profession),
    {
        broadcast use vstd::std_specs::hash::group_hash_axioms;

        let key = key_of_profession(profession);
        match self.profession_requirements.get(&key) {
            Some(entry) => entry.as_slice(),
            None => empty_categories(),
        }
    }

    /// The categories that `good` satisfies.
    pub fn categories_for_good(&self, good: TradeGood) -> (categories: &[DependencyCategory])
        ensures
            categories@ == self.satisfied_by(good),
    {
        broadcast use vstd::std_specs::hash::group_hash_axioms;

        let key = key_of_good(good);
        match self.good_categories.get(&key) {
            Some(list) => list.as_slice(),
            None => empty_categories(),
        }
    }
}

/// No categories.
fn empty_categories() -> (categories: &'static [DependencyCategory])
    ensures
        categories@ == Seq::<DependencyCategory>::empty(),
{
    let categories: &'static [DependencyCategory] = &[];
    assert(categories@ =~= Seq::<DependencyCategory>::empty());
    categories
}

impl Clone for EconomyDependencyMatrix {
    fn clone(&self) -> (copy: Self)
        ensures
            forall|profession: Profession| copy.required(profession) == self.required(profession),
            forall|good: TradeGood| copy.satisfied_by(good) == self.satisfied_by(good),
    {
        Self {
            profession_requirements: self.profession_requirements.clone(),
            good_categories: self.good_categories.clone(),
        }
    }
}

impl Default for EconomyDependencyMatrix {
    fn default() -> (matrix: Self)
        ensures
            forall|profession: Profession|
                matrix.required(profession) == seq![
                    DependencyCategory::Food,
                    DependencyCategory::Tools,
                ],
            matrix.satisfied_by(TradeGood::Grain) == seq![DependencyCategory::Food],
            matrix.satisfied_by(TradeGood::Flour) == seq![DependencyCategory::Food],
            matrix.satisfied_by(TradeGood::Tools) == seq![DependencyCategory::Tools],
    {
        broadcast use vstd::std_specs::hash::group_hash_axioms;

        let mut matrix = Self {
            profession_requirements: HashMap::new(),
            good_categories: HashMap::new(),
        };
        matrix.good_categories.insert(key_of_good(TradeGood::Grain), vec![DependencyCategory::Food]);
        matrix.good_categories.insert(key_of_good(TradeGood::Flour), vec![DependencyCategory::Food]);
        matrix.good_categories.insert(
            key_of_good(TradeGood::Tools),
            vec![DependencyCategory::Tools],
        );
        matrix.set_profession_requirements(
            Profession::Farmer,
            vec![DependencyCategory::Food, DependencyCategory::Tools],
        );
        matrix.set_profession_requirements(
            Profession::Miller,
            vec![DependencyCategory::Food, DependencyCategory::Tools],
        );
        matrix.set_profession_requirements(
            Profession::Blacksmith,
            vec![DependencyCategory::Food, DependencyCategory::Tools],
        );
        matrix
    }
}

/// The reason of a trade as dialogue knows it.
pub open spec fn context_reason(reason: TradeReason) -> TradeContextReason {
    match reason {
        TradeReason::Production => TradeContextReason::Production,
        TradeReason::Processing => TradeContextReason::Processing,
        TradeReason::Exchange => TradeContextReason::Exchange,
    }
}

impl From<TradeReason> for TradeContextReason {
    fn from(value: TradeReason) -> (reason: Self)
        ensures
            reason == context_reason(value),
    {
        match value {
            TradeReason::Production => TradeContextReason::Production,
            TradeReason::Processing => TradeContextReason::Processing,
            TradeReason::Exchange => TradeContextReason::Exchange,
        }
    }
}

impl vstd::std_specs::convert::FromSpecImpl<TradeReason> for TradeContextReason {
    open spec fn obeys_from_spec() -> bool {
        true
    }

    open spec fn from_spec(value: TradeReason) -> TradeContextReason {
        context_reason(value)
    }
}

/// A trade to report and, where it has two sides, to talk about.
#[derive(Debug, Clone, Copy)]
pub struct TradeDialogueInput {
    pub day: u64,
    pub from: Option<NpcId>,
    pub to: Option<NpcId>,
    pub good: TradeGood,
    pub quantity: u32,
    pub reason: TradeReason,
}

/// The prompt with which a speaker talks about a trade.
pub open spec fn trade_prompt(speaker: NpcId, good_label: Seq<char>) -> Seq<char> {
    npc_label(speaker.0) + " discusses exchanging a "@ + good_label + "."@
}

/// The prompt with which a speaker goes through the day's schedule.
pub open spec fn schedule_prompt(speaker: NpcId) -> Seq<char> {
    npc_label(speaker.0) + " reviews the day's schedule."@
}

/// The request that briefs on the schedule of `day`.
pub open spec fn schedule_brief_request(day: u64, speaker: NpcId, description: Seq<char>)
    -> DialogueRequestView {
    DialogueRequestView {
        speaker,
        target: None,
        prompt: schedule_prompt(speaker),
        topic_hint: DialogueTopicHint::Schedule,
        context: DialogueContextView {
            summary: Some("Daily plan: Day "@ + crate::text::decimal(day as nat)),
            events: seq![DialogueContextEventView::ScheduleUpdate { description }],
        },
    }
}

/// The request in which `speaker` talks to `target` about a trade.
pub open spec fn trade_request(input: TradeDialogueInput, speaker: NpcId, target: NpcId)
    -> DialogueRequestView {
    DialogueRequestView {
        speaker,
        target: Some(target),
        prompt: trade_prompt(speaker, trade_good_label(input.good)),
        topic_hint: DialogueTopicHint::Trade,
        context: DialogueContextView {
            summary: None,
            events: seq![
                DialogueContextEventView::Trade(
                    TradeContextView {
                        day: input.day,
                        from: input.from,
                        to: input.to,
                        descriptor: TradeDescriptorView {
                            label: trade_good_label(input.good),
                            quantity: input.quantity,
                        },
                        reason: context_reason(input.reason),
                    },
                ),
            ],
        },
    }
}

/// The trade that `input` reports.
pub open spec fn completed_trade(input: TradeDialogueInput) -> TradeCompletedEvent {
    TradeCompletedEvent {
        day: input.day,
        from: input.from,
        to: input.to,
        good: input.good,
        quantity: input.quantity,
        reason: input.reason,
    }
}

/// The prompt with which `speaker` talks about a trade of the good `good_label`.
pub fn build_trade_prompt(speaker: NpcId, good_label: &str) -> (prompt: String)
    ensures
        prompt@ == trade_prompt(speaker, good_label@),
{
    let mut prompt = speaker.label();
    prompt.append(" discusses exchanging a ");
    prompt.append(good_label);
    prompt.append(".");
    prompt
}

/// Queues a request in which `speaker` briefs on the schedule of `day`.
pub fn queue_schedule_brief(
    queue: &mut DialogueRequestQueue,
    day: u64,
    speaker: NpcId,
    description: String,
) -> (id: DialogueRequestId)
    ensures
        id.0 == old(queue)@.next_request_id,
        final(queue)@ == old(queue)@.enqueued(
            schedule_brief_request(day, speaker, description@),
            0,
        ),
{
    let mut summary = String::from_str("Daily plan: Day ");
    let number = crate::text::decimal_text(day);
    summary.append(number.as_str());
    let mut events: Vec<DialogueContextEvent> = Vec::new();
    events.push(DialogueContextEvent::ScheduleUpdate { description });
    let mut context = DialogueContext::with_events(events);
    context.summary = Some(summary);
    let mut prompt = speaker.label();
    prompt.append(" reviews the day's schedule.");
    let request = DialogueRequest::new(
        speaker,
        None,
        prompt.as_str(),
        DialogueTopicHint::Schedule,
        context,
    );
    proof {
        assert(request@.context.events =~= seq![
            DialogueContextEventView::ScheduleUpdate { description: description@ },
        ]);
    }
    queue.enqueue(request)
}

/// Reports a trade and, where it has a giver and a taker, queues a request
/// in which the giver talks to the taker about it. Returns the report and
/// the identifier of the request, if one was queued.
pub fn send_trade_and_dialogue(queue: &mut DialogueRequestQueue, input: TradeDialogueInput) -> (sent:
    (TradeCompletedEvent, Option<DialogueRequestId>))
    ensures
        sent.0 == completed_trade(input),
        match (input.from, input.to) {
            (Some(speaker), Some(target)) => sent.1 == Some(
                DialogueRequestId(old(queue)@.next_request_id),
            ) && final(queue)@ == old(queue)@.enqueued(trade_request(input, speaker, target), 0),
            _ => sent.1 is None && final(queue)@ == old(queue)@,
        },
{
    let event = TradeCompletedEvent {
        day: input.day,
        from: input.from,
        to: input.to,
        good: input.good,
        quantity: input.quantity,
        reason: input.reason,
    };
    match (input.from, input.to) {
        (Some(speaker), Some(target)) => {
            let descriptor = TradeDescriptor::new(input.good.label(), input.quantity);
            let mut events: Vec<DialogueContextEvent> = Vec::new();
            events.push(
                DialogueContextEvent::Trade(
                    TradeContext {
                        day: input.day,
                        from: input.from,
                        to: input.to,
                        descriptor,
                        reason: TradeContextReason::from(input.reason),
                    },
                ),
            );
            let context = DialogueContext::with_events(events);
            let prompt = build_trade_prompt(speaker, input.good.label());
            let request = DialogueRequest::new(
                speaker,
                Some(target),
                prompt.as_str(),
                DialogueTopicHint::Trade,
                context,
            );
            proof {
                assert(request@.context.events =~= trade_request(
                    input,
                    speaker,
                    target,
                ).context.events);
            }
            let id = queue.enqueue(request);
            (event, Some(id))
        },
        _ => (event, None),
    }
}

} // verus!
