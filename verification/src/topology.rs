//! Reading topology views and choosing the one to install.
//!
//! A view is what one node answers to `CLUSTER SLOTS`. Views sampled from
//! several nodes are grouped by a structural hash; the view that most nodes
//! share is the one to build the slot map from.

use crate::connection::{host_port, host_port_text, TlsMode};
use crate::error::{ErrorKind, ErrorModel, RedisError};
use crate::slot_map::{
    addrs_fit, build_outcome, build_slot_map, slot_models, texts, well_formed, Slot, SlotMap,
    SlotModel, LAST_SLOT,
};
use crate::text::{first_index_from, lemma_first_index_from};
use crate::value::{lemma_bulk_model, models, Value, ValueModel};
use std::collections::hash_map::DefaultHasher;
use std::hash::Hasher;
use vstd::prelude::*;
use vstd::std_specs::hash::DefaultHasherAdditionalSpecFns;
use vstd::string::StringSliceAdditionalSpecFns;
use vstd::utf8::{decode_utf8, encode_utf8, valid_utf8};

verus! {

/// What `String::from_utf8_lossy` makes of a byte string.
pub uninterp spec fn utf8_lossy(bytes: Seq<u8>) -> Seq<char>;

/// The text that a byte string is read as: the text it encodes where it is
/// valid UTF-8, else the lossy reading with replacement characters.
pub open spec fn lossy_text(bytes: Seq<u8>) -> Seq<char> {
    if valid_utf8(bytes) {
        decode_utf8(bytes)
    } else {
        utf8_lossy(bytes)
    }
}

/// Reads bytes as text with `String::from_utf8_lossy`.
///
/// Not proved: that the result is the decoded text for valid UTF-8, as the
/// function's documentation states. For other input the result is only
/// named.
#[verifier::external_body]
fn read_lossy(bytes: &[u8]) -> (text: String)
    ensures
        valid_utf8(bytes@) ==> text@ == decode_utf8(bytes@),
        !valid_utf8(bytes@) ==> text@ == utf8_lossy(bytes@),
{
    String::from_utf8_lossy(bytes).into_owned()
}

/// The eight bytes of `n`, most significant first.
pub open spec fn be_bytes(n: u64) -> Seq<u8> {
    seq![
        (n >> 56) as u8,
        (n >> 48) as u8,
        (n >> 40) as u8,
        (n >> 32) as u8,
        (n >> 24) as u8,
        (n >> 16) as u8,
        (n >> 8) as u8,
        n as u8,
    ]
}

/// The canonical byte encoding of a value: a tag for the variant, then the
/// content, with every length written out in eight bytes.
pub open spec fn encoding(v: ValueModel) -> Seq<u8>
    decreases v, 0nat,
{
    match v {
        ValueModel::Nil => seq![0u8],
        ValueModel::Int(n) => seq![1u8] + be_bytes(n as u64),
        ValueModel::Data(bytes) => seq![2u8] + be_bytes(bytes.len() as u64) + bytes,
        ValueModel::Bulk(items) => seq![3u8] + be_bytes(items.len() as u64) + encoding_of_items(
            items,
            items.len(),
        ),
        ValueModel::Status(text) => seq![4u8] + be_bytes(
            vstd::utf8::encode_utf8(text).len() as u64,
        ) + vstd::utf8::encode_utf8(text),
        ValueModel::Okay => seq![5u8],
    }
}

/// The encodings of the first `count` items, one after the other.
pub open spec fn encoding_of_items(items: Seq<ValueModel>, count: nat) -> Seq<u8>
    decreases items, count,
{
    if count == 0 || count > items.len() {
        Seq::empty()
    } else {
        encoding_of_items(items, (count - 1) as nat) + encoding(items[count - 1])
    }
}

/// The structural hash of a value: the hash of its canonical encoding.
pub open spec fn structural_hash(v: ValueModel) -> u64 {
    DefaultHasher::spec_finish(seq![encoding(v)])
}

fn push_be(out: &mut Vec<u8>, n: u64)
    ensures
        final(out)@ == old(out)@ + be_bytes(n),
{
    out.push(#[verifier::truncate] ((n >> 56) as u8));
    out.push(#[verifier::truncate] ((n >> 48) as u8));
    out.push(#[verifier::truncate] ((n >> 40) as u8));
    out.push(#[verifier::truncate] ((n >> 32) as u8));
    out.push(#[verifier::truncate] ((n >> 24) as u8));
    out.push(#[verifier::truncate] ((n >> 16) as u8));
    out.push(#[verifier::truncate] ((n >> 8) as u8));
    out.push(#[verifier::truncate] (n as u8));
}

fn push_all(out: &mut Vec<u8>, bytes: &[u8])
    ensures
        final(out)@ == old(out)@ + bytes@,
{
    let mut i: usize = 0;
    while i < bytes.len()
        invariant
            i <= bytes.len(),
            out@ == old(out)@ + bytes@.subrange(0, i as int),
        decreases bytes.len() - i,
    {
        out.push(bytes[i]);
        i += 1;
    }
}

/// Appends the canonical encoding of `v` to `out`.
fn encode_into(v: &Value, out: &mut Vec<u8>)
    ensures
        final(out)@ == old(out)@ + encoding(v@),
    decreases v,
{
    match v {
        Value::Nil => {
            out.push(0);
        },
        Value::Int(n) => {
            out.push(1);
            push_be(out, #[verifier::truncate] (*n as u64));
        },
        Value::Data(bytes) => {
            out.push(2);
            push_be(out, bytes.len() as u64);
            push_all(out, bytes.as_slice());
        },
        Value::Bulk(items) => {
            out.push(3);
            push_be(out, items.len() as u64);
            let ghost head = out@;
            let ghost model = models(items@);
            proof {
                lemma_bulk_model(*v);
            }
            let mut i: usize = 0;
            while i < items.len()
                invariant
                    i <= items.len(),
                    *v == Value::Bulk(*items),
                    model == models(items@),
                    out@ == head + encoding_of_items(model, i as nat),
                decreases items.len() - i,
            {
                assert(decreases_to!(*v => v->Bulk_0));
                encode_into(&items[i], out);
                i += 1;
            }
        },
        Value::Status(text) => {
            out.push(4);
            let bytes = text.as_str().as_bytes();
            push_be(out, bytes.len() as u64);
            push_all(out, bytes);
        },
        Value::Okay => {
            out.push(5);
        },
    }
}

/// The structural hash of a value.
pub fn calculate_hash(v: &Value) -> (hash: u64)
    ensures
        hash == structural_hash(v@),
{
    let mut bytes: Vec<u8> = Vec::new();
    encode_into(v, &mut bytes);
    let mut state = DefaultHasher::new();
    state.write(bytes.as_slice());
    state.finish()
}

/// The largest port number.
pub const LAST_PORT: i64 = 65535;

/// The address of one node entry `[ip, port, ...]` of a view. `None` for an
/// entry that is no array or too short, whose host is no byte string or is
/// empty, or whose port is no integer in `0..=65535`.
pub open spec fn node_address(node: ValueModel) -> Option<Seq<char>> {
    match node {
        ValueModel::Bulk(fields) => if fields.len() < 2 {
            None
        } else {
            match (fields[0], fields[1]) {
                (ValueModel::Data(ip), ValueModel::Int(port)) => if ip.len() == 0 || !(0 <= port
                    <= LAST_PORT) {
                    None
                } else {
                    Some(host_port_text(lossy_text(ip), port as u16))
                },
                _ => None,
            }
        },
        _ => None,
    }
}

/// The addresses of the usable node entries among `item[2..upto]`.
pub open spec fn node_addresses(item: Seq<ValueModel>, upto: int) -> Seq<Seq<char>>
    decreases upto,
{
    if upto <= 2 {
        Seq::empty()
    } else {
        match node_address(item[upto - 1]) {
            Some(a) => node_addresses(item, upto - 1).push(a),
            None => node_addresses(item, upto - 1),
        }
    }
}

/// The slot that one entry `[start, end, node, ...replicas]` of a view
/// describes. The first usable node is the primary, the others are replicas.
/// `None` for an entry with fewer than three elements, with a start or end
/// that is no integer in `0..=16383`, or without a usable node.
pub open spec fn entry_slot(item: Seq<ValueModel>) -> Option<SlotModel> {
    if item.len() < 3 {
        None
    } else {
        match (item[0], item[1]) {
            (ValueModel::Int(start), ValueModel::Int(end)) => {
                let found = node_addresses(item, item.len() as int);
                if found.len() == 0 || !(0 <= start <= LAST_SLOT) || !(0 <= end <= LAST_SLOT) {
                    None
                } else {
                    Some(
                        SlotModel {
                            start: start as u16,
                            end: end as u16,
                            master: found[0],
                            replicas: found.subrange(1, found.len() as int),
                        },
                    )
                }
            },
            _ => None,
        }
    }
}

/// The slots described by `items[0..upto]`. Entries that are no array, or
/// that describe no slot, are skipped.
pub open spec fn entry_slots(items: Seq<ValueModel>, upto: int) -> Seq<SlotModel>
    decreases upto,
{
    if upto <= 0 {
        Seq::empty()
    } else {
        match items[upto - 1] {
            ValueModel::Bulk(item) => match entry_slot(item) {
                Some(slot) => entry_slots(items, upto - 1).push(slot),
                None => entry_slots(items, upto - 1),
            },
            _ => entry_slots(items, upto - 1),
        }
    }
}

/// The slots that a view describes: those of its entries, in order. A
/// view that is no array describes none.
pub open spec fn parsed_slots(raw: ValueModel) -> Seq<SlotModel> {
    match raw {
        ValueModel::Bulk(items) => entry_slots(items, items.len() as int),
        _ => Seq::empty(),
    }
}

/// Reads the address of one node entry.
fn read_node(node: &Value) -> (addr: Option<String>)
    ensures
        match addr {
            Some(a) => node_address(node@) == Some(a@),
            None => node_address(node@) is None,
        },
{
    let fields = match node {
        Value::Bulk(fields) => fields,
        _ => {
            return None;
        },
    };
    proof {
        lemma_bulk_model(*node);
    }
    if fields.len() < 2 {
        return None;
    }
    let ip = match &fields[0] {
        Value::Data(ip) => ip,
        _ => {
            return None;
        },
    };
    let port = match &fields[1] {
        Value::Int(port) => *port,
        _ => {
            return None;
        },
    };
    if ip.len() == 0 || port < 0 || port > LAST_PORT {
        return None;
    }
    let host = read_lossy(ip.as_slice());
    Some(host_port(host.as_str(), port as u16))
}

/// Reads a slot number.
fn read_slot_number(value: &Value) -> (number: Option<u16>)
    ensures
        match number {
            Some(n) => value@ == ValueModel::Int(n as i64) && n <= LAST_SLOT,
            None => !(value@ matches ValueModel::Int(n) && 0 <= n <= LAST_SLOT),
        },
{
    match value {
        Value::Int(n) => if 0 <= *n && *n <= LAST_SLOT as i64 {
            Some(*n as u16)
        } else {
            None
        },
        _ => None,
    }
}

/// Reads one entry of a view.
fn read_entry(item: &Vec<Value>) -> (slot: Option<Slot>)
    ensures
        match slot {
            Some(s) => entry_slot(models(item@)) == Some(s@),
            None => entry_slot(models(item@)) is None,
        },
{
    let ghost model = models(item@);
    if item.len() < 3 {
        return None;
    }
    let in_range = match (read_slot_number(&item[0]), read_slot_number(&item[1])) {
        (Some(start), Some(end)) => Some((start, end)),
        _ => None,
    };
    let mut found: Vec<String> = Vec::new();
    let mut i: usize = 2;
    while i < item.len()
        invariant
            2 <= i <= item.len(),
            model == models(item@),
            texts(found@) == node_addresses(model, i as int),
        decreases item.len() - i,
    {
        match read_node(&item[i]) {
            Some(a) => {
                found.push(a);
            },
            None => {},
        }
        i += 1;
    }
    let (start, end) = match in_range {
        Some(pair) => pair,
        None => {
            return None;
        },
    };
    if found.len() == 0 {
        return None;
    }
    let ghost all = texts(found@);
    let replicas = found.split_off(1);
    let master = found.pop().unwrap();
    proof {
        assert(texts(replicas@) =~= all.subrange(1, all.len() as int));
    }
    Some(Slot::new(start, end, master, replicas))
}

/// Reads the slots that a view describes. The TLS mode does not show in
/// node addresses, so the result does not depend on it.
pub fn parse_slots(raw_slot_resp: &Value, tls: Option<TlsMode>) -> (r: Result<Vec<Slot>, RedisError>)
    ensures
        r matches Ok(slots) && slot_models(slots@) == parsed_slots(raw_slot_resp@),
{
    let mut result: Vec<Slot> = Vec::with_capacity(2);
    if let Value::Bulk(items) = raw_slot_resp {
        let ghost model = models(items@);
        proof {
            lemma_bulk_model(*raw_slot_resp);
        }
        let mut i: usize = 0;
        while i < items.len()
            invariant
                i <= items.len(),
                model == models(items@),
                slot_models(result@) == entry_slots(model, i as int),
            decreases items.len() - i,
        {
            match &items[i] {
                Value::Bulk(item) => {
                    proof {
                        lemma_bulk_model(items@[i as int]);
                    }
                    match read_entry(item) {
                        Some(slot) => {
                            result.push(slot);
                        },
                        None => {},
                    }
                },
                _ => {},
            }
            i += 1;
        }
    }
    Ok(result)
}

/// How often `h` occurs in `hashes`.
pub open spec fn count_of(hashes: Seq<u64>, h: u64) -> nat
    decreases hashes.len(),
{
    if hashes.len() == 0 {
        0
    } else {
        count_of(hashes.drop_last(), h) + if hashes.last() == h {
            1nat
        } else {
            0nat
        }
    }
}

/// The largest number of occurrences among the first `upto` hashes.
pub open spec fn top_count(hashes: Seq<u64>, upto: int) -> nat
    decreases upto,
{
    if upto <= 0 {
        0
    } else {
        let here = count_of(hashes, hashes[upto - 1]);
        let before = top_count(hashes, upto - 1);
        if here > before {
            here
        } else {
            before
        }
    }
}

/// True when view `i` is the first with its hash and no hash occurs more
/// often than its own.
pub open spec fn leads(hashes: Seq<u64>, i: int) -> bool {
    first_index_from(hashes, hashes[i], 0) == Some(i) && count_of(hashes, hashes[i]) == top_count(
        hashes,
        hashes.len() as int,
    )
}

/// The leading views among the first `upto`, in order.
pub open spec fn leaders(hashes: Seq<u64>, upto: int) -> Seq<int>
    decreases upto,
{
    if upto <= 0 {
        Seq::empty()
    } else if leads(hashes, upto - 1) {
        leaders(hashes, upto - 1).push(upto - 1)
    } else {
        leaders(hashes, upto - 1)
    }
}

/// The first of the candidate views, from `from` on, whose slots build a
/// map.
pub open spec fn first_valid(views: Seq<ValueModel>, candidates: Seq<int>, from: int) -> Option<int>
    decreases candidates.len() - from,
{
    if from < 0 || from >= candidates.len() {
        None
    } else if build_outcome(parsed_slots(views[candidates[from]])) is Ok {
        Some(candidates[from])
    } else {
        first_valid(views, candidates, from + 1)
    }
}

/// The structural hash of each view.
pub open spec fn view_hashes(views: Seq<ValueModel>) -> Seq<u64> {
    Seq::new(views.len(), |i: int| structural_hash(views[i]))
}

/// The error for an empty sample.
pub open spec fn no_views_error() -> ErrorModel {
    ErrorModel {
        kind: ErrorKind::ResponseError,
        description: "Slot refresh error: All CLUSTER SLOTS results are errors"@,
        detail: None,
    }
}

/// The error for a sample in which no view leads alone.
pub open spec fn no_majority_error() -> ErrorModel {
    ErrorModel {
        kind: ErrorKind::ResponseError,
        description: "Slot refresh error: Couldn't get a majority in topology views"@,
        detail: None,
    }
}

/// The error for a leading view that too few nodes share.
pub open spec fn low_accuracy_error() -> ErrorModel {
    ErrorModel {
        kind: ErrorKind::ResponseError,
        description: "Slot refresh error: The accuracy of the topology view is too low"@,
        detail: None,
    }
}

/// Which of the sampled views is installed, or why none is.
///
/// The view with the most occurrences is taken if at least a fifth of the
/// queried nodes share it and its slots build a map. Where several views
/// lead with the same number of occurrences, they are tried in the order in
/// which they were sampled, and the first whose slots build a map is taken;
/// but only on the last retry, or when fewer than three nodes were queried.
pub open spec fn topology_choice(views: Seq<ValueModel>, last_retry: bool, queried: nat) -> Result<
    int,
    ErrorModel,
> {
    let hashes = view_hashes(views);
    let tied = leaders(hashes, hashes.len() as int);
    if views.len() == 0 {
        Err(no_views_error())
    } else if tied.len() > 1 {
        if last_retry || queried < 3 {
            match first_valid(views, tied, 0) {
                Some(c) => Ok(c),
                None => Err(no_majority_error()),
            }
        } else {
            Err(no_majority_error())
        }
    } else {
        let c = tied[0];
        if 5 * count_of(hashes, hashes[c]) >= queried {
            match build_outcome(parsed_slots(views[c])) {
                Ok(_) => Ok(c),
                Err(e) => Err(e),
            }
        } else {
            Err(low_accuracy_error())
        }
    }
}

proof fn lemma_top_attained(hashes: Seq<u64>, upto: int)
    requires
        0 < upto <= hashes.len(),
    ensures
        exists|i: int| 0 <= i < upto && count_of(hashes, #[trigger] hashes[i]) == top_count(
            hashes,
            upto,
        ),
    decreases upto,
{
    if count_of(hashes, hashes[upto - 1]) < top_count(hashes, upto - 1) {
        lemma_top_attained(hashes, upto - 1);
    }
}

proof fn lemma_leaders(hashes: Seq<u64>, upto: int)
    requires
        0 <= upto <= hashes.len(),
    ensures
        forall|k: int|
            0 <= k < leaders(hashes, upto).len() ==> 0 <= (#[trigger] leaders(hashes, upto)[k])
                < upto,
        forall|i: int| 0 <= i < upto && leads(hashes, i) ==> leaders(hashes, upto).len() > 0,
    decreases upto,
{
    if upto > 0 {
        lemma_leaders(hashes, upto - 1);
        let before = leaders(hashes, upto - 1);
        let now = leaders(hashes, upto);
        assert forall|k: int| 0 <= k < now.len() implies 0 <= (#[trigger] now[k]) < upto by {
            if k < before.len() {
                assert(now[k] == before[k]);
            }
        }
    }
}

/// Among views that are not empty, at least one leads.
proof fn lemma_some_leader(hashes: Seq<u64>)
    requires
        hashes.len() > 0,
    ensures
        leaders(hashes, hashes.len() as int).len() > 0,
{
    let n = hashes.len() as int;
    lemma_top_attained(hashes, n);
    let i = choose|i: int|
        0 <= i < n && count_of(hashes, #[trigger] hashes[i]) == top_count(hashes, n);
    lemma_first_index_from(hashes, hashes[i], 0);
    let f = first_index_from(hashes, hashes[i], 0).unwrap();
    assert(leads(hashes, f));
    lemma_leaders(hashes, n);
}

/// No hash among the first `upto` occurs more often than `top_count` says.
proof fn lemma_top_bounds(hashes: Seq<u64>, upto: int, m: int)
    requires
        0 <= m < upto <= hashes.len(),
    ensures
        count_of(hashes, hashes[m]) <= top_count(hashes, upto),
    decreases upto,
{
    if m < upto - 1 {
        lemma_top_bounds(hashes, upto - 1, m);
    }
}

/// The leaders stand in ascending order, and each of them leads.
proof fn lemma_leaders_ascend(hashes: Seq<u64>, upto: int)
    requires
        0 <= upto <= hashes.len(),
    ensures
        forall|k: int|
            0 <= k < leaders(hashes, upto).len() ==> 0 <= (#[trigger] leaders(hashes, upto)[k])
                < upto && leads(hashes, leaders(hashes, upto)[k]),
        forall|k: int, l: int|
            0 <= k < l < leaders(hashes, upto).len() ==> (#[trigger] leaders(hashes, upto)[k]) < (
            #[trigger] leaders(hashes, upto)[l]),
    decreases upto,
{
    if upto > 0 {
        lemma_leaders_ascend(hashes, upto - 1);
        let before = leaders(hashes, upto - 1);
        let now = leaders(hashes, upto);
        assert forall|k: int| 0 <= k < now.len() implies 0 <= (#[trigger] now[k]) < upto && leads(
            hashes,
            now[k],
        ) by {
            if k < before.len() {
                assert(now[k] == before[k]);
            }
        }
        assert forall|k: int, l: int| 0 <= k < l < now.len() implies (#[trigger] now[k]) < (
        #[trigger] now[l]) by {
            assert(now[k] == before[k]);
            if l < before.len() {
                assert(now[l] == before[l]);
            }
        }
    }
}

/// Two views that lead make two leaders.
proof fn lemma_two_leaders(hashes: Seq<u64>, upto: int, i: int, j: int)
    requires
        0 <= i < j < upto <= hashes.len(),
        leads(hashes, i),
        leads(hashes, j),
    ensures
        leaders(hashes, upto).len() >= 2,
    decreases upto,
{
    lemma_leaders(hashes, upto - 1);
    if j < upto - 1 {
        lemma_two_leaders(hashes, upto - 1, i, j);
    }
}

/// A first view that leads is the first of the leaders.
proof fn lemma_first_leader(hashes: Seq<u64>, upto: int)
    requires
        0 < upto <= hashes.len(),
        leads(hashes, 0),
    ensures
        leaders(hashes, upto).len() > 0,
        leaders(hashes, upto)[0] == 0,
    decreases upto,
{
    if upto > 1 {
        lemma_first_leader(hashes, upto - 1);
    } else {
        assert(leaders(hashes, 0).len() == 0);
    }
}

/// The first view with the hash of a view that occurs as often as any
/// leads.
proof fn lemma_first_of_top_leads(hashes: Seq<u64>, i: int)
    requires
        0 <= i < hashes.len(),
        count_of(hashes, hashes[i]) == top_count(hashes, hashes.len() as int),
    ensures
        first_index_from(hashes, hashes[i], 0) is Some,
        0 <= first_index_from(hashes, hashes[i], 0)->Some_0 <= i,
        hashes[first_index_from(hashes, hashes[i], 0)->Some_0] == hashes[i],
        leads(hashes, first_index_from(hashes, hashes[i], 0)->Some_0),
{
    lemma_first_index_from(hashes, hashes[i], 0);
}

/// Quorum, a majority: where the hash of view `i` occurs more often than
/// any other hash, and at least a fifth of the queried nodes share it, the
/// first view with that hash is the one chosen, and it is installed if its
/// slots build a map.
pub proof fn lemma_majority_is_chosen(
    views: Seq<ValueModel>,
    i: int,
    last_retry: bool,
    queried: nat,
)
    requires
        0 <= i < views.len(),
        forall|j: int|
            0 <= j < views.len() && structural_hash(views[j]) != structural_hash(views[i])
                ==> count_of(view_hashes(views), #[trigger] structural_hash(views[j])) < count_of(
                view_hashes(views),
                structural_hash(views[i]),
            ),
        5 * count_of(view_hashes(views), structural_hash(views[i])) >= queried,
    ensures
        first_index_from(view_hashes(views), structural_hash(views[i]), 0) matches Some(first)
            && 0 <= first <= i && topology_choice(views, last_retry, queried) == (match build_outcome(
            parsed_slots(views[first]),
        ) {
            Ok(_) => Ok::<int, ErrorModel>(first),
            Err(e) => Err::<int, ErrorModel>(e),
        }),
{
    let hashes = view_hashes(views);
    let n = hashes.len() as int;
    let tied = leaders(hashes, n);
    lemma_top_attained(hashes, n);
    let top = choose|k: int|
        0 <= k < n && count_of(hashes, #[trigger] hashes[k]) == top_count(hashes, n);
    lemma_top_bounds(hashes, n, i);
    assert(hashes[top] == structural_hash(views[top]));
    assert(hashes[i] == structural_hash(views[i]));
    assert(count_of(hashes, hashes[i]) == top_count(hashes, n));
    lemma_first_of_top_leads(hashes, i);
    let first = first_index_from(hashes, hashes[i], 0)->Some_0;
    lemma_leaders(hashes, n);
    lemma_leaders_ascend(hashes, n);
    assert forall|k: int| 0 <= k < tied.len() implies #[trigger] tied[k] == first by {
        let c = tied[k];
        assert(leads(hashes, c));
        assert(hashes[c] == structural_hash(views[c]));
    }
    if tied.len() > 1 {
        assert(tied[0] < tied[1]);
    }
    assert(tied[0] == first);
}

/// Quorum, a tie before the last retry: where two views with different
/// hashes each occur as often as any view does, and three or more nodes
/// were queried, no majority is reported, whether or not the views build.
pub proof fn lemma_tie_has_no_majority(views: Seq<ValueModel>, i: int, j: int, queried: nat)
    requires
        0 <= i < views.len(),
        0 <= j < views.len(),
        structural_hash(views[i]) != structural_hash(views[j]),
        count_of(view_hashes(views), structural_hash(views[i])) == top_count(
            view_hashes(views),
            views.len() as int,
        ),
        count_of(view_hashes(views), structural_hash(views[j])) == top_count(
            view_hashes(views),
            views.len() as int,
        ),
        queried >= 3,
    ensures
        topology_choice(views, false, queried) == Err::<int, ErrorModel>(no_majority_error()),
{
    lemma_several_leaders(views, i, j);
}

/// Where two views with different hashes each occur as often as any view
/// does, more than one view leads.
proof fn lemma_several_leaders(views: Seq<ValueModel>, i: int, j: int)
    requires
        0 <= i < views.len(),
        0 <= j < views.len(),
        structural_hash(views[i]) != structural_hash(views[j]),
        count_of(view_hashes(views), structural_hash(views[i])) == top_count(
            view_hashes(views),
            views.len() as int,
        ),
        count_of(view_hashes(views), structural_hash(views[j])) == top_count(
            view_hashes(views),
            views.len() as int,
        ),
    ensures
        leaders(view_hashes(views), views.len() as int).len() > 1,
{
    let hashes = view_hashes(views);
    let n = hashes.len() as int;
    assert(hashes[i] == structural_hash(views[i]));
    assert(hashes[j] == structural_hash(views[j]));
    lemma_first_of_top_leads(hashes, i);
    lemma_first_of_top_leads(hashes, j);
    let a = first_index_from(hashes, hashes[i], 0)->Some_0;
    let b = first_index_from(hashes, hashes[j], 0)->Some_0;
    if a < b {
        lemma_two_leaders(hashes, n, a, b);
    } else {
        lemma_two_leaders(hashes, n, b, a);
    }
}

/// Quorum, a tie on the last retry: where the first view and a view with
/// another hash each occur as often as any view does, and the slots of the
/// first view build a map, the first view is the one chosen.
pub proof fn lemma_first_of_tied_views_is_chosen(views: Seq<ValueModel>, j: int, queried: nat)
    requires
        0 < j < views.len(),
        structural_hash(views[0]) != structural_hash(views[j]),
        count_of(view_hashes(views), structural_hash(views[0])) == top_count(
            view_hashes(views),
            views.len() as int,
        ),
        count_of(view_hashes(views), structural_hash(views[j])) == top_count(
            view_hashes(views),
            views.len() as int,
        ),
        build_outcome(parsed_slots(views[0])) is Ok,
    ensures
        topology_choice(views, true, queried) == Ok::<int, ErrorModel>(0),
{
    let hashes = view_hashes(views);
    let n = hashes.len() as int;
    lemma_several_leaders(views, 0, j);
    assert(hashes[0] == structural_hash(views[0]));
    assert(leads(hashes, 0));
    lemma_first_leader(hashes, n);
}

fn hash_views(views: &Vec<Value>) -> (hashes: Vec<u64>)
    ensures
        hashes@ == view_hashes(models(views@)),
{
    let mut hashes: Vec<u64> = Vec::with_capacity(views.len());
    let mut i: usize = 0;
    while i < views.len()
        invariant
            i <= views.len(),
            hashes.len() == i,
            forall|j: int| 0 <= j < i ==> hashes@[j] == structural_hash(views@[j]@),
        decreases views.len() - i,
    {
        hashes.push(calculate_hash(&views[i]));
        i += 1;
    }
    hashes
}

fn occurrences(hashes: &Vec<u64>, h: u64) -> (count: usize)
    ensures
        count == count_of(hashes@, h),
        count <= hashes.len(),
{
    let mut count: usize = 0;
    let mut j: usize = 0;
    while j < hashes.len()
        invariant
            j <= hashes.len(),
            count <= j,
            count == count_of(hashes@.subrange(0, j as int), h),
        decreases hashes.len() - j,
    {
        let ghost upto = hashes@.subrange(0, j + 1);
        assert(upto.drop_last() =~= hashes@.subrange(0, j as int));
        if hashes[j] == h {
            count += 1;
        }
        j += 1;
    }
    assert(hashes@.subrange(0, hashes.len() as int) =~= hashes@);
    count
}

fn count_views(hashes: &Vec<u64>) -> (counts: Vec<usize>)
    ensures
        counts.len() == hashes.len(),
        forall|i: int|
            0 <= i < counts.len() ==> (#[trigger] counts@[i]) == count_of(hashes@, hashes@[i]),
{
    let mut counts: Vec<usize> = Vec::with_capacity(hashes.len());
    let mut i: usize = 0;
    while i < hashes.len()
        invariant
            i <= hashes.len(),
            counts.len() == i,
            forall|j: int|
                0 <= j < i ==> (#[trigger] counts@[j]) == count_of(hashes@, hashes@[j]),
        decreases hashes.len() - i,
    {
        counts.push(occurrences(hashes, hashes[i]));
        i += 1;
    }
    counts
}

fn largest(hashes: &Vec<u64>, counts: &Vec<usize>) -> (top: usize)
    requires
        counts.len() == hashes.len(),
        forall|i: int|
            0 <= i < counts.len() ==> (#[trigger] counts@[i]) == count_of(hashes@, hashes@[i]),
    ensures
        top == top_count(hashes@, hashes.len() as int),
{
    let mut top: usize = 0;
    let mut i: usize = 0;
    while i < counts.len()
        invariant
            i <= counts.len() == hashes.len(),
            forall|i: int|
                0 <= i < counts.len() ==> (#[trigger] counts@[i]) == count_of(hashes@, hashes@[i]),
            top == top_count(hashes@, i as int),
        decreases counts.len() - i,
    {
        if counts[i] > top {
            top = counts[i];
        }
        i += 1;
    }
    top
}

fn first_with(hashes: &Vec<u64>, h: u64) -> (r: Option<usize>)
    ensures
        match r {
            Some(i) => first_index_from(hashes@, h, 0) == Some(i as int),
            None => first_index_from(hashes@, h, 0) is None,
        },
{
    let mut i: usize = 0;
    while i < hashes.len()
        invariant
            i <= hashes.len(),
            first_index_from(hashes@, h, 0) == first_index_from(hashes@, h, i as int),
        decreases hashes.len() - i,
    {
        if hashes[i] == h {
            return Some(i);
        }
        i += 1;
    }
    None
}

fn find_leaders(hashes: &Vec<u64>, counts: &Vec<usize>, top: usize) -> (tied: Vec<usize>)
    requires
        counts.len() == hashes.len(),
        forall|i: int|
            0 <= i < counts.len() ==> (#[trigger] counts@[i]) == count_of(hashes@, hashes@[i]),
        top == top_count(hashes@, hashes.len() as int),
    ensures
        tied.len() == leaders(hashes@, hashes.len() as int).len(),
        forall|k: int|
            0 <= k < tied.len() ==> (#[trigger] tied@[k]) as int == leaders(
                hashes@,
                hashes.len() as int,
            )[k] && tied@[k] < hashes.len(),
{
    let mut tied: Vec<usize> = Vec::new();
    let mut i: usize = 0;
    while i < hashes.len()
        invariant
            i <= hashes.len() == counts.len(),
            forall|i: int|
                0 <= i < counts.len() ==> (#[trigger] counts@[i]) == count_of(hashes@, hashes@[i]),
            top == top_count(hashes@, hashes.len() as int),
            tied.len() == leaders(hashes@, i as int).len(),
            forall|k: int|
                0 <= k < tied.len() ==> (#[trigger] tied@[k]) as int == leaders(hashes@, i as int)[k]
                    && tied@[k] < hashes.len(),
        decreases hashes.len() - i,
    {
        let first = first_with(hashes, hashes[i]);
        let is_first = match first {
            Some(f) => f == i,
            None => false,
        };
        if is_first && counts[i] == top {
            tied.push(i);
        }
        i += 1;
    }
    tied
}

/// Builds the slot map that one view describes and marks it with `hash`.
pub fn build_view(view: &Value, hash: u64, tls_mode: Option<TlsMode>, read_from_replicas: bool) -> (r:
    Result<SlotMap, RedisError>)
    ensures
        match r {
            Ok(map) => {
                &&& build_outcome(parsed_slots(view@)) == Ok::<Seq<SlotModel>, ErrorModel>(
                    map@.slots(),
                )
                &&& map@.topology_hash == hash
                &&& map@.installed()
                &&& well_formed(map@)
                &&& forall|i: int|
                    0 <= i < map@.ranges.len() ==> addrs_fit(
                        (#[trigger] map@.ranges[i]).slot,
                        read_from_replicas,
                        map@.ranges[i].addrs,
                    )
            },
            Err(e) => build_outcome(parsed_slots(view@)) == Err::<Seq<SlotModel>, ErrorModel>(e@),
        },
{
    let slots = match parse_slots(view, tls_mode) {
        Ok(slots) => slots,
        Err(e) => {
            return Err(e);
        },
    };
    let mut map = SlotMap::new();
    match build_slot_map(&mut map, slots, read_from_replicas) {
        Ok(_) => {
            map.set_topology_hash(hash);
            Ok(map)
        },
        Err(e) => Err(e),
    }
}

/// Chooses among the views sampled from several nodes the one to install,
/// and builds its slot map. See [`topology_choice`] for the rule.
///
/// `retries` counts the attempts that are left, this one included, so that
/// `Some(1)` marks the last; `num_of_queried_nodes` is the number of nodes
/// that were asked, of which some may not have answered.
pub fn calculate_topology(
    topology_views: Vec<Value>,
    retries: Option<usize>,
    tls_mode: Option<TlsMode>,
    read_from_replicas: bool,
    num_of_queried_nodes: usize,
) -> (r: Result<SlotMap, RedisError>)
    ensures
        match r {
            Ok(map) => {
                &&& topology_choice(
                    models(topology_views@),
                    retries == Some(1usize),
                    num_of_queried_nodes as nat,
                ) matches Ok(c)
                &&& 0 <= c < topology_views.len()
                &&& build_outcome(parsed_slots(topology_views@[c]@)) == Ok::<
                    Seq<SlotModel>,
                    ErrorModel,
                >(map@.slots())
                &&& map@.topology_hash == structural_hash(topology_views@[c]@)
                &&& map@.installed()
                &&& well_formed(map@)
                &&& forall|i: int|
                    0 <= i < map@.ranges.len() ==> addrs_fit(
                        (#[trigger] map@.ranges[i]).slot,
                        read_from_replicas,
                        map@.ranges[i].addrs,
                    )
            },
            Err(e) => topology_choice(
                models(topology_views@),
                retries == Some(1usize),
                num_of_queried_nodes as nat,
            ) == Err::<int, ErrorModel>(e@),
        },
{
    let ghost views = models(topology_views@);
    if topology_views.len() == 0 {
        return Err(
            RedisError::new(
                ErrorKind::ResponseError,
                "Slot refresh error: All CLUSTER SLOTS results are errors",
            ),
        );
    }
    let hashes = hash_views(&topology_views);
    let counts = count_views(&hashes);
    let top = largest(&hashes, &counts);
    let tied = find_leaders(&hashes, &counts, top);
    let ghost found = leaders(hashes@, hashes.len() as int);
    proof {
        lemma_some_leader(hashes@);
    }
    if tied.len() > 1 {
        let last_retry = match retries {
            Some(left) => left == 1,
            None => false,
        };
        if last_retry || num_of_queried_nodes < 3 {
            let mut k: usize = 0;
            while k < tied.len()
                invariant
                    k <= tied.len() == found.len(),
                    found.len() > 1,
                    found == leaders(hashes@, hashes.len() as int),
                    topology_views.len() > 0,
                    last_retry == (retries == Some(1usize)),
                    last_retry || num_of_queried_nodes < 3,
                    views == models(topology_views@),
                    hashes@ == view_hashes(views),
                    hashes.len() == topology_views.len(),
                    forall|k: int|
                        0 <= k < tied.len() ==> (#[trigger] tied@[k]) as int == found[k] && tied@[k]
                            < hashes.len(),
                    first_valid(views, found, 0) == first_valid(views, found, k as int),
                decreases tied.len() - k,
            {
                let c = tied[k];
                match build_view(&topology_views[c], hashes[c], tls_mode, read_from_replicas) {
                    Ok(map) => {
                        return Ok(map);
                    },
                    Err(_) => {},
                }
                k += 1;
            }
        }
        return Err(
            RedisError::new(
                ErrorKind::ResponseError,
                "Slot refresh error: Couldn't get a majority in topology views",
            ),
        );
    }
    let c = tied[0];
    if (counts[c] as u128) * 5 >= num_of_queried_nodes as u128 {
        build_view(&topology_views[c], hashes[c], tls_mode, read_from_replicas)
    } else {
        Err(
            RedisError::new(
                ErrorKind::ResponseError,
                "Slot refresh error: The accuracy of the topology view is too low",
            ),
        )
    }
}

/// A node as a view lists it: its host and its port.
pub open spec fn node_entry(node: (Seq<char>, u16)) -> ValueModel {
    ValueModel::Bulk(seq![ValueModel::Data(encode_utf8(node.0)), ValueModel::Int(node.1 as i64)])
}

/// A slot as a view lists it: start, end, then the primary and the
/// replicas, each with host and port.
pub open spec fn slot_entry(start: u16, end: u16, nodes: Seq<(Seq<char>, u16)>) -> Seq<ValueModel> {
    seq![ValueModel::Int(start as i64), ValueModel::Int(end as i64)] + Seq::new(
        nodes.len(),
        |i: int| node_entry(nodes[i]),
    )
}

/// The addresses of nodes given by host and port.
pub open spec fn addresses_of(nodes: Seq<(Seq<char>, u16)>) -> Seq<Seq<char>> {
    Seq::new(nodes.len(), |i: int| host_port_text(nodes[i].0, nodes[i].1))
}

proof fn lemma_node_round_trip(node: (Seq<char>, u16))
    requires
        node.0.len() > 0,
    ensures
        node_address(node_entry(node)) == Some(host_port_text(node.0, node.1)),
{
    vstd::utf8::encode_utf8_valid_utf8(node.0);
    vstd::utf8::encode_utf8_decode_utf8(node.0);
    // What encodes to nothing decodes to nothing, and so is empty.
    assert(encode_utf8(node.0).len() > 0);
}

proof fn lemma_nodes_round_trip(start: u16, end: u16, nodes: Seq<(Seq<char>, u16)>, upto: int)
    requires
        0 <= upto <= nodes.len(),
        forall|i: int| 0 <= i < nodes.len() ==> (#[trigger] nodes[i]).0.len() > 0,
    ensures
        node_addresses(slot_entry(start, end, nodes), 2 + upto) == addresses_of(nodes).subrange(
            0,
            upto,
        ),
    decreases upto,
{
    if upto > 0 {
        lemma_nodes_round_trip(start, end, nodes, upto - 1);
        lemma_node_round_trip(nodes[upto - 1]);
    }
}

/// Round trip: a slot written as an entry of a view and read back is the
/// same slot. The slot lies within the slots of a cluster and has a primary
/// and any number of replicas, each with a host that is not empty.
pub proof fn lemma_slot_round_trip(start: u16, end: u16, nodes: Seq<(Seq<char>, u16)>)
    requires
        start <= LAST_SLOT,
        end <= LAST_SLOT,
        nodes.len() > 0,
        forall|i: int| 0 <= i < nodes.len() ==> (#[trigger] nodes[i]).0.len() > 0,
    ensures
        parsed_slots(ValueModel::Bulk(seq![ValueModel::Bulk(slot_entry(start, end, nodes))]))
            == seq![
            SlotModel {
                start,
                end,
                master: addresses_of(nodes)[0],
                replicas: addresses_of(nodes).subrange(1, nodes.len() as int),
            },
        ],
{
    let item = slot_entry(start, end, nodes);
    let items = seq![ValueModel::Bulk(item)];
    lemma_nodes_round_trip(start, end, nodes, nodes.len() as int);
    assert(addresses_of(nodes).subrange(0, nodes.len() as int) =~= addresses_of(nodes));
    assert(entry_slots(items, 0) =~= Seq::<SlotModel>::empty());
}

} // verus!
