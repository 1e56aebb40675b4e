//! The slot map: which node owns which range of slots.
//!
//! A map is either empty or *installed*. An installed map holds ranges that
//! start at slot 0, follow one another without gap or overlap, and end at
//! slot 16383, so that every slot has exactly one primary.

use crate::error::{ErrorKind, ErrorModel, RedisError};
use crate::lists::reversed;
use crate::random::choose_index;
use crate::routing::{MultiRoutingModel, MultipleNodeRoutingInfo, Route, SlotAddr};
use crate::text::{decimal, push_decimal, str_eq};
use vstd::prelude::*;

verus! {

/// The largest slot number.
pub const LAST_SLOT: u16 = 16383;

/// A range of slots with the nodes that serve it, as a node reports it.
#[derive(Debug, PartialEq, Eq)]
pub struct Slot {
    start: u16,
    end: u16,
    master: String,
    replicas: Vec<String>,
}

/// Mathematical model of a [`Slot`].
pub struct SlotModel {
    pub start: u16,
    pub end: u16,
    pub master: Seq<char>,
    pub replicas: Seq<Seq<char>>,
}

/// The texts of a list of strings.
pub open spec fn texts(list: Seq<String>) -> Seq<Seq<char>> {
    Seq::new(list.len(), |i: int| list[i]@)
}

impl View for Slot {
    type V = SlotModel;

    closed spec fn view(&self) -> SlotModel {
        SlotModel {
            start: self.start,
            end: self.end,
            master: self.master@,
            replicas: texts(self.replicas@),
        }
    }
}

/// The models of a list of slots.
pub open spec fn slot_models(slots: Seq<Slot>) -> Seq<SlotModel> {
    Seq::new(slots.len(), |i: int| slots[i]@)
}

/// The primary and the chosen replica of a range.
#[derive(Debug, PartialEq, Eq)]
pub struct SlotAddrs {
    primary: String,
    replica: String,
}

/// Mathematical model of a [`SlotAddrs`].
pub struct SlotAddrsModel {
    pub primary: Seq<char>,
    pub replica: Seq<char>,
}

impl View for SlotAddrs {
    type V = SlotAddrsModel;

    closed spec fn view(&self) -> SlotAddrsModel {
        SlotAddrsModel { primary: self.primary@, replica: self.replica@ }
    }
}

/// The address that serves `slot_addr`: the primary for `Master`, the chosen
/// replica otherwise.
pub open spec fn addr_for(addrs: SlotAddrsModel, slot_addr: SlotAddr) -> Seq<char> {
    match slot_addr {
        SlotAddr::Master => addrs.primary,
        SlotAddr::ReplicaOptional => addrs.replica,
        SlotAddr::ReplicaRequired => addrs.replica,
    }
}

/// The addresses for a range when replica number `choice` is the one to read
/// from. Without reading from replicas, or without replicas, the primary
/// stands in for the replica.
pub open spec fn addrs_with_choice(
    slot: SlotModel,
    read_from_replicas: bool,
    choice: int,
) -> SlotAddrsModel {
    SlotAddrsModel {
        primary: slot.master,
        replica: if read_from_replicas && slot.replicas.len() > 0 {
            slot.replicas[choice]
        } else {
            slot.master
        },
    }
}

/// True when `addrs` is a possible choice of addresses for `slot`.
pub open spec fn addrs_fit(slot: SlotModel, read_from_replicas: bool, addrs: SlotAddrsModel) -> bool {
    if read_from_replicas && slot.replicas.len() > 0 {
        exists|choice: int|
            0 <= choice < slot.replicas.len() && addrs == #[trigger] addrs_with_choice(
                slot,
                read_from_replicas,
                choice,
            )
    } else {
        addrs == addrs_with_choice(slot, read_from_replicas, 0)
    }
}

/// One range of an installed map.
pub struct RangeModel {
    pub slot: SlotModel,
    pub addrs: SlotAddrsModel,
}

/// Mathematical model of a [`SlotMap`].
pub struct SlotMapModel {
    pub ranges: Seq<RangeModel>,
    pub topology_hash: u64,
}

impl SlotMapModel {
    /// The slots of the map, in order.
    pub open spec fn slots(self) -> Seq<SlotModel> {
        Seq::new(self.ranges.len(), |i: int| self.ranges[i].slot)
    }

    /// True when the map holds a topology.
    pub open spec fn installed(self) -> bool {
        self.ranges.len() > 0
    }
}

/// The slot at which range `i` of `slots` must start for the ranges to
/// follow one another from slot 0.
pub open spec fn expected_start(slots: Seq<SlotModel>, i: int) -> int {
    if i <= 0 {
        0
    } else {
        slots[i - 1].end + 1
    }
}

/// True when the first `upto` ranges follow one another from slot 0.
pub open spec fn follows(slots: Seq<SlotModel>, upto: int) -> bool {
    forall|i: int| 0 <= i < upto ==> slots[i].start == #[trigger] expected_start(slots, i)
}

/// True when the ranges, in this order, cover the slots `0..=16383` exactly
/// once.
pub open spec fn covers(slots: Seq<SlotModel>) -> bool {
    follows(slots, slots.len() as int) && expected_start(slots, slots.len() as int) == LAST_SLOT
        + 1
}

/// True when the starts of `slots` never decrease.
pub open spec fn ordered(slots: Seq<SlotModel>) -> bool {
    forall|i: int, j: int| 0 <= i <= j < slots.len() ==> slots[i].start <= slots[j].start
}

/// Position before which `slot` is inserted into `sorted` so that it comes
/// ahead of every range that does not start earlier.
pub open spec fn insert_at(sorted: Seq<SlotModel>, slot: SlotModel, from: int) -> int
    decreases sorted.len() - from,
{
    if from < 0 || from >= sorted.len() {
        sorted.len() as int
    } else if sorted[from].start >= slot.start {
        from
    } else {
        insert_at(sorted, slot, from + 1)
    }
}

/// `slots` sorted by start; ranges with equal starts keep their order.
pub open spec fn sort_by_start(slots: Seq<SlotModel>) -> Seq<SlotModel>
    decreases slots.len(),
{
    if slots.len() == 0 {
        slots
    } else {
        let rest = sort_by_start(slots.drop_first());
        rest.insert(insert_at(rest, slots.first(), 0), slots.first())
    }
}

/// Index of the first range that does not start where it must, if any.
pub open spec fn first_misfit(slots: Seq<SlotModel>, from: int) -> Option<int>
    decreases slots.len() - from,
{
    if from < 0 || from >= slots.len() {
        None
    } else if slots[from].start != expected_start(slots, from) {
        Some(from)
    } else {
        first_misfit(slots, from + 1)
    }
}

/// The description that every slot refresh error carries.
pub open spec fn refresh_description() -> Seq<char> {
    "Slot refresh error."@
}

/// The error for a range that does not start where the one before it ends.
pub open spec fn overlap_error(expected: int, slot: SlotModel) -> ErrorModel {
    ErrorModel {
        kind: ErrorKind::ResponseError,
        description: refresh_description(),
        detail: Some(
            "Received overlapping slots "@ + decimal(expected as nat) + " and "@ + decimal(
                slot.start as nat,
            ) + ".."@ + decimal(slot.end as nat),
        ),
    }
}

/// The error for ranges that stop short of the last slot.
pub open spec fn lacking_error(next: int) -> ErrorModel {
    ErrorModel {
        kind: ErrorKind::ResponseError,
        description: refresh_description(),
        detail: Some("Lacks the slots >= "@ + decimal(next as nat)),
    }
}

/// What building a map from `slots` gives: the slots sorted by start when
/// they cover every slot exactly once, else the error for the first fault.
pub open spec fn build_outcome(slots: Seq<SlotModel>) -> Result<Seq<SlotModel>, ErrorModel> {
    let sorted = sort_by_start(slots);
    match first_misfit(sorted, 0) {
        Some(i) => Err(overlap_error(expected_start(sorted, i), sorted[i])),
        None => if expected_start(sorted, sorted.len() as int) == LAST_SLOT + 1 {
            Ok(sorted)
        } else {
            Err(lacking_error(expected_start(sorted, sorted.len() as int)))
        },
    }
}

/// True when `slot` lies in `range`.
pub open spec fn holds(range: SlotModel, slot: u16) -> bool {
    range.start <= slot <= range.end
}

/// Index of the first range at or after `from` that holds `slot`.
pub open spec fn range_of(slots: Seq<SlotModel>, slot: u16, from: int) -> Option<int>
    decreases slots.len() - from,
{
    if from < 0 || from >= slots.len() {
        None
    } else if holds(slots[from], slot) {
        Some(from)
    } else {
        range_of(slots, slot, from + 1)
    }
}

/// The address a route resolves to: that of the range holding the route's
/// slot, if there is one.
pub open spec fn resolve(map: SlotMapModel, route: Route) -> Option<Seq<char>> {
    match range_of(map.slots(), route.0, 0) {
        Some(i) => Some(addr_for(map.ranges[i].addrs, route.1)),
        None => None,
    }
}

/// `list` without repetitions: each element where it first occurs.
pub open spec fn distinct<T>(list: Seq<T>) -> Seq<T>
    decreases list.len(),
{
    if list.len() == 0 {
        list
    } else {
        let head = distinct(list.drop_last());
        if head.contains(list.last()) {
            head
        } else {
            head.push(list.last())
        }
    }
}

/// The primaries of the first `upto` ranges, in order.
pub open spec fn primaries(map: SlotMapModel, upto: int) -> Seq<Seq<char>>
    decreases upto,
{
    if upto <= 0 {
        Seq::empty()
    } else {
        primaries(map, upto - 1).push(map.ranges[upto - 1].slot.master)
    }
}

/// The primary and replicas of the first `upto` ranges, in order.
pub open spec fn nodes(map: SlotMapModel, upto: int) -> Seq<Seq<char>>
    decreases upto,
{
    if upto <= 0 {
        Seq::empty()
    } else {
        nodes(map, upto - 1).push(map.ranges[upto - 1].slot.master) + map.ranges[upto
            - 1].slot.replicas
    }
}

/// The address each of the first `upto` routes resolves to.
pub open spec fn resolve_each(
    map: SlotMapModel,
    routes: Seq<(Route, Seq<usize>)>,
) -> Seq<Option<Seq<char>>> {
    Seq::new(routes.len(), |i: int| resolve(map, routes[i].0))
}

/// The addresses among `found` that are there.
pub open spec fn present(found: Seq<Option<Seq<char>>>) -> Seq<Seq<char>>
    decreases found.len(),
{
    if found.len() == 0 {
        Seq::empty()
    } else {
        match found.last() {
            Some(a) => present(found.drop_last()).push(a),
            None => present(found.drop_last()),
        }
    }
}

/// The set of nodes a multi-node routing addresses, each once, in the order
/// in which the map or the routes first name them.
pub open spec fn multi_addresses(map: SlotMapModel, routing: MultiRoutingModel) -> Seq<Seq<char>> {
    match routing {
        MultiRoutingModel::AllMasters => distinct(primaries(map, map.ranges.len() as int)),
        MultiRoutingModel::AllNodes => distinct(nodes(map, map.ranges.len() as int)),
        MultiRoutingModel::MultiSlot(routes) => distinct(present(resolve_each(map, routes))),
    }
}

/// The invariant of a slot map: an installed map covers every slot exactly
/// once with ranges in ascending order, and each range's addresses are its
/// primary and one of its own nodes.
pub open spec fn well_formed(map: SlotMapModel) -> bool {
    &&& map.installed() ==> covers(map.slots()) && ordered(map.slots())
    &&& forall|i: int|
        0 <= i < map.ranges.len() ==> (#[trigger] map.ranges[i]).addrs.primary
            == map.ranges[i].slot.master
    &&& forall|i: int|
        0 <= i < map.ranges.len() ==> (#[trigger] map.ranges[i]).addrs.replica
            == map.ranges[i].slot.master || map.ranges[i].slot.replicas.contains(
            map.ranges[i].addrs.replica,
        )
}

impl Slot {
    /// The range `start..=end` served by `master` and `replicas`.
    pub fn new(start: u16, end: u16, master: String, replicas: Vec<String>) -> (slot: Slot)
        ensures
            slot@ == (SlotModel { start, end, master: master@, replicas: texts(replicas@) }),
    {
        Slot { start, end, master, replicas }
    }

    /// First slot of the range.
    pub fn start(&self) -> (start: u16)
        ensures
            start == self@.start,
    {
        self.start
    }

    /// Last slot of the range.
    pub fn end(&self) -> (end: u16)
        ensures
            end == self@.end,
    {
        self.end
    }

    /// Address of the primary.
    pub fn master(&self) -> (master: &str)
        ensures
            master@ == self@.master,
    {
        self.master.as_str()
    }

    /// Addresses of the replicas.
    pub fn replicas(&self) -> (replicas: &Vec<String>)
        ensures
            texts(replicas@) == self@.replicas,
    {
        &self.replicas
    }

    /// A copy of this slot.
    pub fn duplicate(&self) -> (copy: Slot)
        ensures
            copy@ == self@,
    {
        let mut replicas: Vec<String> = Vec::with_capacity(self.replicas.len());
        let mut i: usize = 0;
        while i < self.replicas.len()
            invariant
                i <= self.replicas.len(),
                replicas.len() == i,
                forall|j: int| 0 <= j < i ==> replicas@[j]@ == self.replicas@[j]@,
            decreases self.replicas.len() - i,
        {
            replicas.push(self.replicas[i].clone());
            i += 1;
        }
        assert(texts(replicas@) =~= texts(self.replicas@));
        Slot { start: self.start, end: self.end, master: self.master.clone(), replicas }
    }
}

impl SlotAddrs {
    /// The addresses of a range: its primary and the replica to read from.
    /// Without a replica the primary stands in for it.
    pub fn new(master_node: String, replica_node: Option<String>) -> (addrs: SlotAddrs)
        ensures
            addrs@ == (SlotAddrsModel {
                primary: master_node@,
                replica: match replica_node {
                    Some(r) => r@,
                    None => master_node@,
                },
            }),
    {
        let replica = match replica_node {
            Some(r) => r,
            None => master_node.clone(),
        };
        SlotAddrs { primary: master_node, replica }
    }

    /// The address that serves `slot_addr`.
    pub fn slot_addr(&self, slot_addr: SlotAddr) -> (addr: &str)
        ensures
            addr@ == addr_for(self@, slot_addr),
    {
        match slot_addr {
            SlotAddr::Master => self.primary.as_str(),
            SlotAddr::ReplicaOptional => self.replica.as_str(),
            SlotAddr::ReplicaRequired => self.replica.as_str(),
        }
    }

    /// The primary.
    pub fn primary(&self) -> (addr: &str)
        ensures
            addr@ == self@.primary,
    {
        self.primary.as_str()
    }

    /// The replica to read from.
    pub fn replica(&self) -> (addr: &str)
        ensures
            addr@ == self@.replica,
    {
        self.replica.as_str()
    }

    /// The addresses for `slot` when replica number `choice` is the one to
    /// read from.
    pub fn from_slot_choice(slot: &Slot, read_from_replicas: bool, choice: usize) -> (addrs:
        SlotAddrs)
        requires
            read_from_replicas && slot@.replicas.len() > 0 ==> choice < slot@.replicas.len(),
        ensures
            addrs@ == addrs_with_choice(slot@, read_from_replicas, choice as int),
    {
        let replica = if read_from_replicas && slot.replicas.len() > 0 {
            Some(slot.replicas[choice].clone())
        } else {
            None
        };
        SlotAddrs::new(slot.master.clone(), replica)
    }

    /// The addresses for `slot`, with a replica picked at random where reads
    /// may go to replicas.
    pub fn from_slot(slot: &Slot, read_from_replicas: bool) -> (addrs: SlotAddrs)
        ensures
            addrs_fit(slot@, read_from_replicas, addrs@),
    {
        let choice = if read_from_replicas {
            choose_index(slot.replicas.len())
        } else {
            None
        };
        match choice {
            Some(choice) => SlotAddrs::from_slot_choice(slot, read_from_replicas, choice),
            None => SlotAddrs::from_slot_choice(slot, false, 0),
        }
    }

    /// A copy of these addresses.
    pub fn duplicate(&self) -> (copy: SlotAddrs)
        ensures
            copy@ == self@,
    {
        SlotAddrs { primary: self.primary.clone(), replica: self.replica.clone() }
    }
}

/// One range of the map.
#[derive(Debug)]
struct SlotMapValue {
    slot: Slot,
    addrs: SlotAddrs,
}

/// The slot map of a cluster client.
#[derive(Debug)]
pub struct SlotMap {
    ranges: Vec<SlotMapValue>,
    topology_hash: u64,
}

impl View for SlotMap {
    type V = SlotMapModel;

    closed spec fn view(&self) -> SlotMapModel {
        SlotMapModel { ranges: range_models(self.ranges@), topology_hash: self.topology_hash }
    }
}

/// The models of a list of ranges.
spec fn range_models(ranges: Seq<SlotMapValue>) -> Seq<RangeModel> {
    Seq::new(ranges.len(), |i: int| RangeModel { slot: ranges[i].slot@, addrs: ranges[i].addrs@ })
}

/// Sorting leaves the starts in ascending order.
pub proof fn lemma_insert_at(sorted: Seq<SlotModel>, slot: SlotModel, from: int)
    requires
        0 <= from <= sorted.len(),
    ensures
        from <= insert_at(sorted, slot, from) <= sorted.len(),
        forall|j: int| from <= j < insert_at(sorted, slot, from) ==> sorted[j].start < slot.start,
        insert_at(sorted, slot, from) < sorted.len() ==> sorted[insert_at(sorted, slot, from)].start
            >= slot.start,
    decreases sorted.len() - from,
{
    if from < sorted.len() && sorted[from].start < slot.start {
        lemma_insert_at(sorted, slot, from + 1);
    }
}

/// The result of sorting is in ascending order of start and as long as the
/// input.
pub proof fn lemma_sort_ordered(slots: Seq<SlotModel>)
    ensures
        ordered(sort_by_start(slots)),
        sort_by_start(slots).len() == slots.len(),
    decreases slots.len(),
{
    if slots.len() > 0 {
        let rest = sort_by_start(slots.drop_first());
        lemma_sort_ordered(slots.drop_first());
        lemma_insert_at(rest, slots.first(), 0);
        let p = insert_at(rest, slots.first(), 0);
        assert(ordered(rest.insert(p, slots.first())));
    }
}

/// Sorting a list that is already in ascending order changes nothing.
pub proof fn lemma_sort_of_ordered(slots: Seq<SlotModel>)
    requires
        ordered(slots),
    ensures
        sort_by_start(slots) == slots,
    decreases slots.len(),
{
    if slots.len() > 0 {
        let tail = slots.drop_first();
        assert(ordered(tail));
        lemma_sort_of_ordered(tail);
    }
}

/// For each place in `sort_by_start(slots)`, the index in `slots` of the
/// range that stands there.
pub open spec fn sorted_from(slots: Seq<SlotModel>) -> Seq<int>
    decreases slots.len(),
{
    if slots.len() == 0 {
        Seq::empty()
    } else {
        let rest = sort_by_start(slots.drop_first());
        let from = sorted_from(slots.drop_first());
        Seq::new(from.len(), |k: int| from[k] + 1).insert(insert_at(rest, slots.first(), 0), 0)
    }
}

/// True when some place of `order` holds `i`.
pub open spec fn names(order: Seq<int>, i: int) -> bool {
    exists|k: int| 0 <= k < order.len() && #[trigger] order[k] == i
}

/// Sorting only reorders: each place of the sorted list holds the range
/// that `sorted_from` names, no range is named twice, and every range is
/// named.
pub proof fn lemma_sort_reorders(slots: Seq<SlotModel>)
    ensures
        sorted_from(slots).len() == slots.len(),
        sort_by_start(slots).len() == slots.len(),
        forall|k: int|
            0 <= k < slots.len() ==> 0 <= #[trigger] sorted_from(slots)[k] < slots.len()
                && sort_by_start(slots)[k] == slots[sorted_from(slots)[k]],
        forall|k: int, l: int|
            0 <= k < l < slots.len() ==> #[trigger] sorted_from(slots)[k]
                != #[trigger] sorted_from(slots)[l],
        forall|i: int| 0 <= i < slots.len() ==> #[trigger] names(sorted_from(slots), i),
    decreases slots.len(),
{
    if slots.len() > 0 {
        let tail = slots.drop_first();
        let rest = sort_by_start(tail);
        let from = sorted_from(tail);
        let p = insert_at(rest, slots.first(), 0);
        lemma_sort_reorders(tail);
        lemma_insert_at(rest, slots.first(), 0);
        let moved = Seq::new(from.len(), |k: int| from[k] + 1);
        let order = moved.insert(p, 0);
        let sorted = rest.insert(p, slots.first());
        assert(order == sorted_from(slots));
        assert(sorted == sort_by_start(slots));
        assert forall|k: int| 0 <= k < slots.len() implies 0 <= #[trigger] order[k] < slots.len()
            && sorted[k] == slots[order[k]] by {
            if k < p {
                assert(order[k] == from[k] + 1);
                assert(sorted[k] == tail[from[k]]);
            } else if k > p {
                assert(order[k] == from[k - 1] + 1);
                assert(sorted[k] == tail[from[k - 1]]);
            }
        }
        assert forall|k: int, l: int| 0 <= k < l < slots.len() implies #[trigger] order[k]
            != #[trigger] order[l] by {
            let a = if k < p { k } else { k - 1 };
            let b = if l < p { l } else { l - 1 };
            if k != p && l != p {
                assert(order[k] == from[a] + 1);
                assert(order[l] == from[b] + 1);
                assert(a < b);
            } else if k == p {
                assert(order[l] == from[b] + 1);
            } else {
                assert(order[k] == from[a] + 1);
            }
        }
        assert forall|i: int| 0 <= i < slots.len() implies #[trigger] names(order, i) by {
            if i == 0 {
                assert(order[p] == 0);
            } else {
                assert(names(from, i - 1));
                let k = choose|k: int| 0 <= k < from.len() && #[trigger] from[k] == i - 1;
                if k < p {
                    assert(order[k] == i);
                } else {
                    assert(order[k + 1] == from[k] + 1);
                }
            }
        }
    }
}

/// In ranges that follow one another in ascending order, a slot lies in at
/// most one range.
pub proof fn lemma_one_range(slots: Seq<SlotModel>, slot: u16, i: int, j: int)
    requires
        follows(slots, slots.len() as int),
        ordered(slots),
        0 <= i < j < slots.len(),
        holds(slots[i], slot),
    ensures
        !holds(slots[j], slot),
{
    assert(slots[i + 1].start == expected_start(slots, i + 1));
}

/// In ranges that cover every slot, each slot below 16384 lies in a range.
pub proof fn lemma_some_range(slots: Seq<SlotModel>, slot: u16, upto: int)
    requires
        follows(slots, slots.len() as int),
        0 < upto <= slots.len(),
        slot < expected_start(slots, upto),
    ensures
        exists|i: int| 0 <= i < upto && holds(#[trigger] slots[i], slot),
    decreases upto,
{
    let last = slots[upto - 1];
    assert(last.start == expected_start(slots, upto - 1));
    if last.start > slot {
        lemma_some_range(slots, slot, upto - 1);
    }
}

/// What `range_of` finds is the first range holding the slot.
pub proof fn lemma_range_of(slots: Seq<SlotModel>, slot: u16, from: int)
    requires
        0 <= from <= slots.len(),
    ensures
        match range_of(slots, slot, from) {
            Some(i) => from <= i < slots.len() && holds(slots[i], slot) && forall|j: int|
                from <= j < i ==> !holds(#[trigger] slots[j], slot),
            None => forall|j: int| from <= j < slots.len() ==> !holds(#[trigger] slots[j], slot),
        },
    decreases slots.len() - from,
{
    if from < slots.len() && !holds(slots[from], slot) {
        lemma_range_of(slots, slot, from + 1);
    }
}

/// Full coverage: in an installed map every slot below 16384 lies in
/// exactly one range, and so has exactly one primary.
pub proof fn lemma_full_coverage(map: SlotMapModel, slot: u16)
    requires
        well_formed(map),
        map.installed(),
        slot <= LAST_SLOT,
    ensures
        range_of(map.slots(), slot, 0) is Some,
        forall|i: int|
            0 <= i < map.ranges.len() && holds((#[trigger] map.ranges[i]).slot, slot) ==> range_of(
                map.slots(),
                slot,
                0,
            ) == Some(i),
        resolve(map, Route(slot, SlotAddr::Master)) == Some(
            map.ranges[range_of(map.slots(), slot, 0).unwrap()].slot.master,
        ),
{
    let slots = map.slots();
    lemma_some_range(slots, slot, slots.len() as int);
    lemma_range_of(slots, slot, 0);
    let found = range_of(slots, slot, 0).unwrap();
    assert forall|i: int|
        0 <= i < map.ranges.len() && holds((#[trigger] map.ranges[i]).slot, slot) implies range_of(
        slots,
        slot,
        0,
    ) == Some(i) by {
        if found < i {
            lemma_one_range(slots, slot, found, i);
        } else if i < found {
            lemma_one_range(slots, slot, i, found);
        }
    }
}

/// Coverage of what was given: where building from `given` succeeds with
/// the map `map`, every slot below 16384 lies in exactly one of the given
/// ranges, in whatever order they were given, and the map resolves a route
/// to the slot's primary to the primary of that range.
pub proof fn lemma_given_coverage(given: Seq<SlotModel>, map: SlotMapModel, slot: u16)
    requires
        well_formed(map),
        build_outcome(given) == Ok::<Seq<SlotModel>, ErrorModel>(map.slots()),
        slot <= LAST_SLOT,
    ensures
        exists|i: int|
            {
                &&& 0 <= i < given.len()
                &&& holds(#[trigger] given[i], slot)
                &&& resolve(map, Route(slot, SlotAddr::Master)) == Some(given[i].master)
                &&& forall|j: int| 0 <= j < given.len() && holds(#[trigger] given[j], slot) ==> j == i
            },
{
    let sorted = sort_by_start(given);
    let order = sorted_from(given);
    lemma_sort_reorders(given);
    assert(map.slots() == sorted);
    assert(map.installed());
    lemma_full_coverage(map, slot);
    lemma_range_of(sorted, slot, 0);
    let found = range_of(sorted, slot, 0).unwrap();
    let i = order[found];
    assert(given[i] == sorted[found]);
    assert(map.ranges[found].slot == sorted[found]);
    assert forall|j: int| 0 <= j < given.len() && holds(#[trigger] given[j], slot) implies j
        == i by {
        assert(names(order, j));
        let k = choose|k: int| 0 <= k < order.len() && #[trigger] order[k] == j;
        assert(map.ranges[k].slot == sorted[k]);
    }
}

/// Building is idempotent: building again from the slots of a built map
/// gives the same slots.
pub proof fn lemma_build_idempotent(slots: Seq<SlotModel>)
    requires
        build_outcome(slots) is Ok,
    ensures
        build_outcome(build_outcome(slots)->Ok_0) == build_outcome(slots),
{
    lemma_sort_ordered(slots);
    lemma_sort_of_ordered(sort_by_start(slots));
}

/// True when `list` holds the text of `item`.
pub fn holds_text(list: &Vec<String>, item: &str) -> (r: bool)
    ensures
        r == texts(list@).contains(item@),
{
    let mut i: usize = 0;
    while i < list.len()
        invariant
            i <= list.len(),
            forall|j: int| 0 <= j < i ==> texts(list@)[j] != item@,
        decreases list.len() - i,
    {
        if str_eq(list[i].as_str(), item) {
            assert(texts(list@)[i as int] == item@);
            return true;
        }
        i += 1;
    }
    false
}

/// Appends `item` unless its text is already there.
fn add_distinct(list: &mut Vec<String>, item: &str)
    ensures
        texts(final(list)@) == if texts(old(list)@).contains(item@) {
            texts(old(list)@)
        } else {
            texts(old(list)@).push(item@)
        },
{
    if !holds_text(list, item) {
        list.push(item.to_owned());
    }
}

proof fn lemma_distinct_push<T>(list: Seq<T>, item: T)
    ensures
        distinct(list.push(item)) == if distinct(list).contains(item) {
            distinct(list)
        } else {
            distinct(list).push(item)
        },
{
    assert(list.push(item).drop_last() =~= list);
}

/// Sorts slots by start, keeping the order of slots with equal starts.
fn sort_slots(slots: Vec<Slot>) -> (sorted: Vec<Slot>)
    ensures
        slot_models(sorted@) == sort_by_start(slot_models(slots@)),
{
    let mut slots = slots;
    let ghost all = slot_models(slots@);
    let mut sorted: Vec<Slot> = Vec::with_capacity(slots.len());
    while slots.len() > 0
        invariant
            slots.len() <= all.len(),
            slot_models(slots@) == all.subrange(0, slots.len() as int),
            slot_models(sorted@) == sort_by_start(
                all.subrange(slots.len() as int, all.len() as int),
            ),
        decreases slots.len(),
    {
        let ghost k = slots.len() as int;
        let ghost before = slots@;
        let ghost done = slot_models(sorted@);
        let slot = slots.pop().unwrap();
        proof {
            assert(slot_models(before)[k - 1] == slot@);
            let tail = all.subrange(k - 1, all.len() as int);
            assert(tail.drop_first() =~= all.subrange(k, all.len() as int));
        }
        let mut p: usize = 0;
        while p < sorted.len() && sorted[p].start < slot.start
            invariant
                p <= sorted.len(),
                done == slot_models(sorted@),
                insert_at(done, slot@, 0) == insert_at(done, slot@, p as int),
            decreases sorted.len() - p,
        {
            p += 1;
        }
        sorted.insert(p, slot);
        assert(slot_models(sorted@) =~= done.insert(p as int, slot@));
    }
    assert(all.subrange(0, all.len() as int) =~= all);
    sorted
}

/// The detail of the error for a range that starts in the wrong place.
fn overlap_detail(expected: u32, slot: &Slot) -> (detail: String)
    ensures
        Some(detail@) == overlap_error(expected as int, slot@).detail,
{
    let mut detail = "Received overlapping slots ".to_owned();
    push_decimal(&mut detail, expected as u64);
    detail.append(" and ");
    push_decimal(&mut detail, slot.start as u64);
    detail.append("..");
    push_decimal(&mut detail, slot.end as u64);
    detail
}

/// Checks that sorted slots cover every slot exactly once.
fn check_coverage(sorted: &Vec<Slot>) -> (r: Result<(), RedisError>)
    ensures
        match r {
            Ok(_) => covers(slot_models(sorted@)),
            Err(e) => {
                let slots = slot_models(sorted@);
                match first_misfit(slots, 0) {
                    Some(i) => e@ == overlap_error(expected_start(slots, i), slots[i]),
                    None => expected_start(slots, slots.len() as int) != LAST_SLOT + 1 && e@
                        == lacking_error(expected_start(slots, slots.len() as int)),
                }
            },
        },
{
    let ghost slots = slot_models(sorted@);
    let mut expected: u32 = 0;
    let mut i: usize = 0;
    while i < sorted.len()
        invariant
            i <= sorted.len(),
            slots == slot_models(sorted@),
            expected == expected_start(slots, i as int),
            first_misfit(slots, 0) == first_misfit(slots, i as int),
            follows(slots, i as int),
        decreases sorted.len() - i,
    {
        if sorted[i].start as u32 != expected {
            return Err(
                RedisError::with_detail(
                    ErrorKind::ResponseError,
                    "Slot refresh error.",
                    overlap_detail(expected, &sorted[i]),
                ),
            );
        }
        expected = sorted[i].end as u32 + 1;
        i += 1;
    }
    if expected != LAST_SLOT as u32 + 1 {
        let mut detail = "Lacks the slots >= ".to_owned();
        push_decimal(&mut detail, expected as u64);
        return Err(RedisError::with_detail(ErrorKind::ResponseError, "Slot refresh error.", detail));
    }
    Ok(())
}

impl SlotMap {
    #[verifier::type_invariant]
    spec fn sound(self) -> bool {
        well_formed(self@)
    }

    /// An empty map.
    pub fn new() -> (map: SlotMap)
        ensures
            map@.ranges.len() == 0,
            map@.topology_hash == 0,
    {
        SlotMap { ranges: Vec::new(), topology_hash: 0 }
    }

    /// Removes every range.
    pub fn clear(&mut self)
        ensures
            final(self)@.ranges.len() == 0,
            final(self)@.topology_hash == old(self)@.topology_hash,
    {
        self.ranges = Vec::new();
    }

    /// The hash of the topology view this map was built from.
    pub fn topology_hash(&self) -> (hash: u64)
        ensures
            hash == self@.topology_hash,
    {
        self.topology_hash
    }

    /// Records the hash of the topology view this map was built from.
    pub fn set_topology_hash(&mut self, hash: u64)
        ensures
            final(self)@.ranges == old(self)@.ranges,
            final(self)@.topology_hash == hash,
            well_formed(final(self)@),
    {
        proof {
            use_type_invariant(&*self);
        }
        self.topology_hash = hash;
    }

    /// Number of ranges.
    pub fn len(&self) -> (n: usize)
        ensures
            n == self@.ranges.len(),
            well_formed(self@),
    {
        proof {
            use_type_invariant(self);
        }
        self.ranges.len()
    }

    /// The addresses of every range, in ascending order of slots.
    pub fn values(&self) -> (out: Vec<&SlotAddrs>)
        ensures
            out.len() == self@.ranges.len(),
            forall|i: int| 0 <= i < out.len() ==> out@[i]@ == self@.ranges[i].addrs,
    {
        let mut out: Vec<&SlotAddrs> = Vec::with_capacity(self.ranges.len());
        let mut i: usize = 0;
        while i < self.ranges.len()
            invariant
                i <= self.ranges.len(),
                out.len() == i,
                forall|j: int| 0 <= j < i ==> out@[j]@ == self.ranges@[j].addrs@,
            decreases self.ranges.len() - i,
        {
            out.push(&self.ranges[i].addrs);
            i += 1;
        }
        out
    }

    /// The slots of every range, in ascending order.
    pub fn slots(&self) -> (out: Vec<Slot>)
        ensures
            slot_models(out@) == self@.slots(),
    {
        let mut out: Vec<Slot> = Vec::with_capacity(self.ranges.len());
        let mut i: usize = 0;
        while i < self.ranges.len()
            invariant
                i <= self.ranges.len(),
                out.len() == i,
                forall|j: int| 0 <= j < i ==> out@[j]@ == self.ranges@[j].slot@,
            decreases self.ranges.len() - i,
        {
            out.push(self.ranges[i].slot.duplicate());
            i += 1;
        }
        out
    }

    /// The address a route resolves to. In an installed map every route
    /// with a slot below 16384 resolves.
    pub fn slot_addr_for_route(&self, route: &Route) -> (addr: Option<&str>)
        ensures
            match addr {
                Some(a) => resolve(self@, *route) == Some(a@),
                None => resolve(self@, *route) is None,
            },
            self@.installed() && route.0 <= LAST_SLOT ==> addr is Some,
    {
        proof {
            use_type_invariant(self);
        }
        let slot = route.slot();
        let n = self.ranges.len();
        let ghost slots = self@.slots();
        let mut lo: usize = 0;
        let mut hi: usize = n;
        while lo < hi
            invariant
                lo <= hi <= n == self.ranges.len(),
                slots == self@.slots(),
                ordered(slots),
                forall|i: int| 0 <= i < lo ==> (#[trigger] slots[i]).start <= slot,
                forall|i: int| hi <= i < n ==> (#[trigger] slots[i]).start > slot,
            decreases hi - lo,
        {
            let mid = lo + (hi - lo) / 2;
            if self.ranges[mid].slot.start <= slot {
                proof {
                    assert forall|i: int| 0 <= i < mid + 1 implies (#[trigger] slots[i]).start
                        <= slot by {
                        assert(slots[i].start <= slots[mid as int].start);
                    }
                }
                lo = mid + 1;
            } else {
                hi = mid;
            }
        }
        proof {
            if n > 0 {
                lemma_lookup(slots, slot, lo as int);
            }
        }
        if lo == 0 {
            return None;
        }
        let entry = &self.ranges[lo - 1];
        if slot <= entry.slot.end {
            Some(entry.addrs.slot_addr(route.slot_addr()))
        } else {
            None
        }
    }

    /// The address of every primary, each once.
    pub fn addresses_for_all_primaries(&self) -> (out: Vec<String>)
        ensures
            texts(out@) == multi_addresses(self@, MultiRoutingModel::AllMasters),
    {
        let mut out: Vec<String> = Vec::new();
        let mut i: usize = 0;
        while i < self.ranges.len()
            invariant
                i <= self.ranges.len(),
                texts(out@) == distinct(primaries(self@, i as int)),
            decreases self.ranges.len() - i,
        {
            proof {
                lemma_distinct_push(primaries(self@, i as int), self@.ranges[i as int].slot.master);
            }
            add_distinct(&mut out, self.ranges[i].slot.master.as_str());
            i += 1;
        }
        out
    }

    /// The address of every primary and every replica, each once.
    pub fn addresses_for_all_nodes(&self) -> (out: Vec<String>)
        ensures
            texts(out@) == multi_addresses(self@, MultiRoutingModel::AllNodes),
    {
        let mut out: Vec<String> = Vec::new();
        let mut i: usize = 0;
        while i < self.ranges.len()
            invariant
                i <= self.ranges.len(),
                texts(out@) == distinct(nodes(self@, i as int)),
            decreases self.ranges.len() - i,
        {
            let ghost base = nodes(self@, i as int);
            let ghost master = self@.ranges[i as int].slot.master;
            let ghost replicas = self@.ranges[i as int].slot.replicas;
            proof {
                lemma_distinct_push(base, master);
            }
            add_distinct(&mut out, self.ranges[i].slot.master.as_str());
            let list = &self.ranges[i].slot.replicas;
            let mut j: usize = 0;
            while j < list.len()
                invariant
                    j <= list.len(),
                    texts(list@) == replicas,
                    texts(out@) == distinct(base.push(master) + replicas.subrange(0, j as int)),
                decreases list.len() - j,
            {
                proof {
                    let sofar = base.push(master) + replicas.subrange(0, j as int);
                    lemma_distinct_push(sofar, replicas[j as int]);
                    assert(sofar.push(replicas[j as int]) =~= base.push(master)
                        + replicas.subrange(0, j + 1));
                }
                add_distinct(&mut out, list[j].as_str());
                j += 1;
            }
            assert(replicas.subrange(0, replicas.len() as int) =~= replicas);
            i += 1;
        }
        out
    }

    /// The address each route resolves to, route by route.
    pub fn addresses_for_multi_slot(&self, routes: &Vec<(Route, Vec<usize>)>) -> (out: Vec<
        Option<String>,
    >)
        ensures
            out.len() == routes.len(),
            forall|i: int|
                0 <= i < out.len() ==> match #[trigger] out@[i] {
                    Some(a) => resolve(self@, routes@[i].0) == Some(a@),
                    None => resolve(self@, routes@[i].0) is None,
                },
    {
        let mut out: Vec<Option<String>> = Vec::with_capacity(routes.len());
        let mut i: usize = 0;
        while i < routes.len()
            invariant
                i <= routes.len(),
                out.len() == i,
                forall|j: int|
                    0 <= j < i ==> match #[trigger] out@[j] {
                        Some(a) => resolve(self@, routes@[j].0) == Some(a@),
                        None => resolve(self@, routes@[j].0) is None,
                    },
            decreases routes.len() - i,
        {
            let found = match self.slot_addr_for_route(&routes[i].0) {
                Some(a) => Some(a.to_owned()),
                None => None,
            };
            out.push(found);
            i += 1;
        }
        out
    }

    /// The set of nodes that a multi-node routing addresses.
    pub fn addresses_for_multi_routing(&self, routing: &MultipleNodeRoutingInfo) -> (out: Vec<
        String,
    >)
        ensures
            texts(out@) == multi_addresses(self@, routing@),
    {
        match routing {
            MultipleNodeRoutingInfo::AllMasters => self.addresses_for_all_primaries(),
            MultipleNodeRoutingInfo::AllNodes => self.addresses_for_all_nodes(),
            MultipleNodeRoutingInfo::MultiSlot(routes) => {
                let ghost model = crate::routing::slots_model(routes@);
                let ghost found = resolve_each(self@, model);
                let mut out: Vec<String> = Vec::new();
                let mut i: usize = 0;
                while i < routes.len()
                    invariant
                        i <= routes.len(),
                        model == crate::routing::slots_model(routes@),
                        found == resolve_each(self@, model),
                        texts(out@) == distinct(present(found.subrange(0, i as int))),
                    decreases routes.len() - i,
                {
                    proof {
                        let upto = found.subrange(0, i + 1);
                        assert(upto.drop_last() =~= found.subrange(0, i as int));
                        match found[i as int] {
                            Some(a) => lemma_distinct_push(
                                present(found.subrange(0, i as int)),
                                a,
                            ),
                            None => {},
                        }
                    }
                    match self.slot_addr_for_route(&routes[i].0) {
                        Some(a) => add_distinct(&mut out, a),
                        None => {},
                    }
                    i += 1;
                }
                assert(found.subrange(0, found.len() as int) =~= found);
                out
            },
        }
    }
}

/// Replaces the ranges of `slot_map` by those of `slots_data`, provided that
/// they cover every slot exactly once. On an error the map stays as it was.
pub fn build_slot_map(slot_map: &mut SlotMap, slots_data: Vec<Slot>, read_from_replicas: bool) -> (r:
    Result<(), RedisError>)
    ensures
        match r {
            Ok(_) => {
                &&& build_outcome(slot_models(slots_data@)) == Ok::<Seq<SlotModel>, ErrorModel>(
                    final(slot_map)@.slots(),
                )
                &&& final(slot_map)@.installed()
                &&& final(slot_map)@.topology_hash == old(slot_map)@.topology_hash
                &&& forall|i: int|
                    0 <= i < final(slot_map)@.ranges.len() ==> addrs_fit(
                        (#[trigger] final(slot_map)@.ranges[i]).slot,
                        read_from_replicas,
                        final(slot_map)@.ranges[i].addrs,
                    )
                &&& well_formed(final(slot_map)@)
            },
            Err(e) => build_outcome(slot_models(slots_data@)) == Err::<Seq<SlotModel>, ErrorModel>(
                e@,
            ) && final(slot_map)@ == old(slot_map)@,
        },
{
    let ghost given = slot_models(slots_data@);
    let sorted = sort_slots(slots_data);
    let ghost plan = slot_models(sorted@);
    proof {
        lemma_sort_ordered(given);
        lemma_first_misfit(plan, 0);
    }
    match check_coverage(&sorted) {
        Err(e) => {
            return Err(e);
        },
        Ok(_) => {},
    }
    let ranges = fill_ranges(sorted, read_from_replicas);
    proof {
        let model = SlotMapModel {
            ranges: range_models(ranges@),
            topology_hash: slot_map.topology_hash,
        };
        assert(model.slots() =~= plan);
    }
    let built = SlotMap { ranges, topology_hash: slot_map.topology_hash };
    *slot_map = built;
    Ok(())
}

/// Picks the addresses for each slot, in order.
fn fill_ranges(sorted: Vec<Slot>, read_from_replicas: bool) -> (ranges: Vec<SlotMapValue>)
    ensures
        ranges.len() == sorted.len(),
        forall|j: int| 0 <= j < ranges.len() ==> (#[trigger] ranges@[j]).slot@ == sorted@[j]@,
        forall|j: int|
            0 <= j < ranges.len() ==> addrs_fit(
                (#[trigger] ranges@[j]).slot@,
                read_from_replicas,
                ranges@[j].addrs@,
            ),
{
    let ghost plan = sorted@;
    let mut pending = reversed(sorted);
    let mut ranges: Vec<SlotMapValue> = Vec::with_capacity(pending.len());
    while pending.len() > 0
        invariant
            pending.len() + ranges.len() == plan.len(),
            forall|j: int|
                0 <= j < pending.len() ==> (#[trigger] pending@[j]) == plan[plan.len() - 1 - j],
            forall|j: int| 0 <= j < ranges.len() ==> (#[trigger] ranges@[j]).slot@ == plan[j]@,
            forall|j: int|
                0 <= j < ranges.len() ==> addrs_fit(
                    (#[trigger] ranges@[j]).slot@,
                    read_from_replicas,
                    ranges@[j].addrs@,
                ),
        decreases pending.len(),
    {
        let slot = pending.pop().unwrap();
        let addrs = SlotAddrs::from_slot(&slot, read_from_replicas);
        ranges.push(SlotMapValue { slot, addrs });
    }
    ranges
}

/// Where a binary search over the starts ends, the range just before holds
/// the slot or no range does.
proof fn lemma_lookup(slots: Seq<SlotModel>, slot: u16, lo: int)
    requires
        covers(slots),
        ordered(slots),
        0 <= lo <= slots.len(),
        forall|i: int| 0 <= i < lo ==> (#[trigger] slots[i]).start <= slot,
        forall|i: int| lo <= i < slots.len() ==> (#[trigger] slots[i]).start > slot,
    ensures
        range_of(slots, slot, 0) == if lo > 0 && slot <= slots[lo - 1].end {
            Some(lo - 1)
        } else {
            None
        },
        slot <= LAST_SLOT && slots.len() > 0 ==> lo > 0 && slot <= slots[lo - 1].end,
{
    lemma_range_of(slots, slot, 0);
    assert forall|j: int| 0 <= j < lo - 1 implies !holds(#[trigger] slots[j], slot) by {
        assert(slots[j + 1].start == expected_start(slots, j + 1));
    }
    if slot <= LAST_SLOT && slots.len() > 0 {
        lemma_some_range(slots, slot, slots.len() as int);
    }
}

proof fn lemma_first_misfit(slots: Seq<SlotModel>, from: int)
    requires
        0 <= from <= slots.len(),
    ensures
        match first_misfit(slots, from) {
            Some(i) => from <= i < slots.len() && slots[i].start != expected_start(slots, i),
            None => forall|i: int|
                from <= i < slots.len() ==> slots[i].start == #[trigger] expected_start(slots, i),
        },
    decreases slots.len() - from,
{
    if from < slots.len() && slots[from].start == expected_start(slots, from) {
        lemma_first_misfit(slots, from + 1);
    }
}

} // verus!
