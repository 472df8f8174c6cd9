use vstd::prelude::*;

use ussr_nbt::owned::Nbt;
use ussr_nbt::NbtReadError;

use crate::primitives::nbt::{nbt_read, read_nbt_stream};

verus! {

/// A supported Minecraft version.
#[derive(Debug, Clone, Copy, PartialEq, Eq, Hash)]
pub enum Version {
    V26_1_2,
}

/// The name the data tables file a version under.
pub open spec fn version_name(version: Version) -> Seq<char> {
    match version {
        Version::V26_1_2 => "26.1.2"@,
    }
}

impl Version {
    pub fn id(self) -> (id: &'static str)
        ensures
            id@ == version_name(self),
    {
        match self {
            Version::V26_1_2 => "26.1.2",
        }
    }
}

/// A protocol registry: `(entry id, protocol id)` pairs in protocol-id order.
pub type ProtocolTable = Vec<(String, i32)>;

/// The versioned data tables: protocol registries, version numbers, packet
/// ids, synced registries with their NBT entries, tags, the entity types that
/// cannot be summoned and item stack sizes.
pub struct DataTables {
    pub protocol_registries: Vec<(String, Vec<(String, ProtocolTable)>)>,
    /// `(version, protocol version, world version)`.
    pub version_info: Vec<(String, i32, i32)>,
    /// version, then state, then direction, then `(packet name, id)`.
    pub packets: Vec<(String, Vec<(String, Vec<(String, ProtocolTable)>)>)>,
    /// version, then registry, then `(entry id, NBT bytes)`.
    pub registries: Vec<(String, Vec<(String, Vec<(String, Vec<u8>)>)>)>,
    /// version, then registry, then `(tag id, entry ids)`.
    pub tags: Vec<(String, Vec<(String, Vec<(String, Vec<String>)>)>)>,
    pub non_summonable_entity_types: Vec<(String, Vec<String>)>,
    /// `(item id, max stack size)`, by increasing item id.
    pub item_stack_sizes: Vec<(i32, u8)>,
    /// `(item name, protocol item id)`, one entry per item.
    pub item_ids: Vec<(String, i32)>,
    /// `(item id, default block state)` for block items, by increasing item id.
    pub item_block_states: Vec<(i32, i32)>,
    /// `(first state, last state, block entity type)` for the block states
    /// that host a block entity, by increasing first state.
    pub block_entity_hosts: Vec<(i32, i32, String)>,
}

// ---------------------------------------------------------------------------
// Lookups
// ---------------------------------------------------------------------------

/// `i` is the first position in `entries` whose key is `key`.
pub open spec fn is_first_key<V>(entries: Seq<(String, V)>, key: Seq<char>, i: int) -> bool {
    &&& 0 <= i < entries.len()
    &&& entries[i].0@ == key
    &&& forall|j: int| 0 <= j < i ==> entries[j].0@ != key
}

/// The first position in `entries` whose key is `key`, if there is one.
pub open spec fn find_key<V>(entries: Seq<(String, V)>, key: Seq<char>) -> Option<int> {
    if exists|i: int| is_first_key(entries, key, i) {
        Some(choose|i: int| is_first_key(entries, key, i))
    } else {
        None
    }
}

proof fn lemma_first_key_unique<V>(entries: Seq<(String, V)>, key: Seq<char>, i: int, k: int)
    requires
        is_first_key(entries, key, i),
        is_first_key(entries, key, k),
    ensures
        i == k,
{
}

/// The position of the first entry with key `key`.
fn find_key_index<V>(entries: &Vec<(String, V)>, key: &String) -> (r: Option<usize>)
    ensures
        match r {
            Some(i) => find_key(entries@, key@) == Some(i as int),
            None => find_key(entries@, key@) is None,
        },
{
    let mut i: usize = 0;
    while i < entries.len()
        invariant
            i <= entries@.len(),
            forall|j: int| 0 <= j < i ==> entries@[j].0@ != key@,
        decreases entries@.len() - i,
    {
        if entries[i].0 == *key {
            assert(is_first_key(entries@, key@, i as int));
            proof {
                let k = choose|k: int| is_first_key(entries@, key@, k);
                lemma_first_key_unique(entries@, key@, i as int, k);
            }
            return Some(i);
        }
        i = i + 1;
    }
    None
}

/// The value filed under `key` in the first entry with that key.
pub open spec fn lookup<V>(entries: Seq<(String, V)>, key: Seq<char>) -> Option<V> {
    match find_key(entries, key) {
        Some(i) => Some(entries[i].1),
        None => None,
    }
}

pub open spec fn lookup2<V>(entries: Seq<(String, Vec<(String, V)>)>, k1: Seq<char>, k2: Seq<char>) -> Option<V> {
    match lookup(entries, k1) {
        Some(inner) => lookup(inner@, k2),
        None => None,
    }
}

/// The table of protocol ids of `registry_id` for `version`.
pub open spec fn spec_protocol_registry(data: DataTables, version: Version, registry_id: Seq<char>) -> Option<Seq<(String, i32)>> {
    match lookup2(data.protocol_registries@, version_name(version), registry_id) {
        Some(table) => Some(table@),
        None => None,
    }
}

/// The protocol id of `entry_id` in `registry_id` for `version`.
pub open spec fn spec_protocol_registry_index(data: DataTables, version: Version, registry_id: Seq<char>, entry_id: Seq<char>) -> Option<i32> {
    match spec_protocol_registry(data, version, registry_id) {
        Some(table) => lookup(table, entry_id),
        None => None,
    }
}

fn to_string(s: &str) -> (r: String)
    ensures
        r@ == s@,
{
    s.to_owned()
}

/// Returns the raw `(entry_id, protocol_id)` table of protocol registry ids.
pub fn protocol_registry<'d>(data: &'d DataTables, version: Version, registry_id: &str) -> (r: Option<&'d ProtocolTable>)
    ensures
        match r {
            Some(table) => spec_protocol_registry(*data, version, registry_id@) == Some(table@),
            None => spec_protocol_registry(*data, version, registry_id@) is None,
        },
{
    let v = to_string(version.id());
    let i = find_key_index(&data.protocol_registries, &v)?;
    let registries = &data.protocol_registries[i].1;
    let id = to_string(registry_id);
    let j = find_key_index(registries, &id)?;
    Some(&registries[j].1)
}

/// Returns the protocol numeric id of `entry_id` in `registry_id`, or `None`
/// if it is not present.
pub fn protocol_registry_index(data: &DataTables, version: Version, registry_id: &str, entry_id: &str) -> (r: Option<i32>)
    ensures
        r == spec_protocol_registry_index(*data, version, registry_id@, entry_id@),
{
    let table = protocol_registry(data, version, registry_id)?;
    let e = to_string(entry_id);
    let k = find_key_index(table, &e)?;
    Some(table[k].1)
}

/// Returns every entity type name for `version` in protocol-id order.
pub fn entity_type_names(data: &DataTables, version: Version) -> (names: Vec<String>)
    ensures
        match spec_protocol_registry(*data, version, "minecraft:entity_type"@) {
            Some(table) => names@.len() == table.len() && forall|i: int|
                0 <= i < table.len() ==> #[trigger] names@[i]@ == table[i].0@,
            None => names@.len() == 0,
        },
{
    proof {
        reveal_strlit("minecraft:entity_type");
    }
    let mut names: Vec<String> = Vec::new();
    match protocol_registry(data, version, "minecraft:entity_type") {
        None => names,
        Some(table) => {
            let mut i: usize = 0;
            while i < table.len()
                invariant
                    i <= table@.len(),
                    names@.len() == i,
                    forall|j: int| 0 <= j < i ==> #[trigger] names@[j]@ == table@[j].0@,
                decreases table@.len() - i,
            {
                names.push(table[i].0.clone());
                i = i + 1;
            }
            names
        },
    }
}

/// Returns the protocol numeric id of a named entity type.
pub fn entity_type_id(data: &DataTables, version: Version, name: &str) -> (r: Option<i32>)
    ensures
        r == spec_protocol_registry_index(*data, version, "minecraft:entity_type"@, name@),
{
    protocol_registry_index(data, version, "minecraft:entity_type", name)
}

/// The entity types that the data exclude from `/summon`.
pub open spec fn spec_non_summonable(data: DataTables, version: Version) -> Seq<String> {
    match lookup(data.non_summonable_entity_types@, version_name(version)) {
        Some(types) => types@,
        None => Seq::empty(),
    }
}

/// Returns entity types excluded from the summonable-entities suggestions.
pub fn non_summonable_entity_types<'d>(data: &'d DataTables, version: Version) -> (r: &'d [String])
    ensures
        r@ == spec_non_summonable(*data, version),
{
    let v = to_string(version.id());
    match find_key_index(&data.non_summonable_entity_types, &v) {
        Some(i) => data.non_summonable_entity_types[i].1.as_slice(),
        None => {
            let empty: &[String] = &[];
            assert(empty@ =~= Seq::<String>::empty());
            empty
        },
    }
}

/// Returns whether `name` is a valid runtime target for `/summon`: a known
/// entity type that is not excluded.
pub fn is_summonable_entity_type(data: &DataTables, version: Version, name: &str) -> (r: bool)
    ensures
        r == (spec_protocol_registry_index(*data, version, "minecraft:entity_type"@, name@) is Some
            && !(exists|i: int|
            0 <= i < spec_non_summonable(*data, version).len() && #[trigger] spec_non_summonable(
                *data,
                version,
            )[i]@ == name@)),
{
    if entity_type_id(data, version, name).is_none() {
        return false;
    }
    let excluded = non_summonable_entity_types(data, version);
    let n = to_string(name);
    let mut i: usize = 0;
    while i < excluded.len()
        invariant
            i <= excluded@.len(),
            excluded@ == spec_non_summonable(*data, version),
            n@ == name@,
            forall|j: int| 0 <= j < i ==> excluded@[j]@ != name@,
        decreases excluded@.len() - i,
    {
        if excluded[i] == n {
            return false;
        }
        i = i + 1;
    }
    true
}

pub fn particle_type_id(data: &DataTables, version: Version, name: &str) -> (r: Option<i32>)
    ensures
        r == spec_protocol_registry_index(*data, version, "minecraft:particle_type"@, name@),
{
    protocol_registry_index(data, version, "minecraft:particle_type", name)
}

pub fn sound_event_id(data: &DataTables, version: Version, name: &str) -> (r: Option<i32>)
    ensures
        r == spec_protocol_registry_index(*data, version, "minecraft:sound_event"@, name@),
{
    protocol_registry_index(data, version, "minecraft:sound_event", name)
}

pub fn block_entity_type_id(data: &DataTables, version: Version, name: &str) -> (r: Option<i32>)
    ensures
        r == spec_protocol_registry_index(*data, version, "minecraft:block_entity_type"@, name@),
{
    protocol_registry_index(data, version, "minecraft:block_entity_type", name)
}

pub fn menu_id(data: &DataTables, version: Version, name: &str) -> (r: Option<i32>)
    ensures
        r == spec_protocol_registry_index(*data, version, "minecraft:menu"@, name@),
{
    protocol_registry_index(data, version, "minecraft:menu", name)
}

pub fn data_component_type_id(data: &DataTables, version: Version, name: &str) -> (r: Option<i32>)
    ensures
        r == spec_protocol_registry_index(*data, version, "minecraft:data_component_type"@, name@),
{
    protocol_registry_index(data, version, "minecraft:data_component_type", name)
}

/// `i` is the first position in `table` whose protocol id is `id`.
pub open spec fn is_first_id(table: Seq<(String, i32)>, id: i32, i: int) -> bool {
    &&& 0 <= i < table.len()
    &&& table[i].1 == id
    &&& forall|j: int| 0 <= j < i ==> table[j].1 != id
}

/// The first position in `table` whose protocol id is `id`, if there is one.
pub open spec fn find_id(table: Seq<(String, i32)>, id: i32) -> Option<int> {
    if exists|i: int| is_first_id(table, id, i) {
        Some(choose|i: int| is_first_id(table, id, i))
    } else {
        None
    }
}

/// The name filed under protocol id `id` in the first entry with that id.
pub open spec fn name_of_id(table: Seq<(String, i32)>, id: i32) -> Option<Seq<char>> {
    match find_id(table, id) {
        Some(i) => Some(table[i].0@),
        None => None,
    }
}

/// The position of the first entry with protocol id `id`.
fn find_id_index(table: &Vec<(String, i32)>, id: i32) -> (r: Option<usize>)
    ensures
        match r {
            Some(i) => find_id(table@, id) == Some(i as int),
            None => find_id(table@, id) is None,
        },
{
    let mut i: usize = 0;
    while i < table.len()
        invariant
            i <= table@.len(),
            forall|j: int| 0 <= j < i ==> table@[j].1 != id,
        decreases table@.len() - i,
    {
        if table[i].1 == id {
            assert(is_first_id(table@, id, i as int));
            proof {
                let k = choose|k: int| is_first_id(table@, id, k);
                assert(k == i);
            }
            return Some(i);
        }
        i = i + 1;
    }
    None
}

/// The name of the first block entity type with protocol id `id`.
pub open spec fn spec_block_entity_type_name(data: DataTables, version: Version, id: i32) -> Option<Seq<char>> {
    match spec_protocol_registry(data, version, "minecraft:block_entity_type"@) {
        None => None,
        Some(table) => name_of_id(table, id),
    }
}

pub fn block_entity_type_name<'d>(data: &'d DataTables, version: Version, id: i32) -> (r: Option<&'d String>)
    ensures
        match r {
            Some(name) => spec_block_entity_type_name(*data, version, id) == Some(name@),
            None => spec_block_entity_type_name(*data, version, id) is None,
        },
{
    proof {
        reveal_strlit("minecraft:block_entity_type");
    }
    let table = protocol_registry(data, version, "minecraft:block_entity_type")?;
    let i = find_id_index(table, id)?;
    Some(&table[i].0)
}

/// No two entries of `table` share a protocol id.
pub open spec fn ids_distinct(table: Seq<(String, i32)>) -> bool {
    forall|i: int, j: int| 0 <= i < j < table.len() ==> table[i].1 != table[j].1
}

/// Looking up a name and then the name of the id found gives the name back,
/// in any table whose ids are distinct: names and ids resolve both ways.
pub proof fn names_and_ids_resolve_both_directions(table: Seq<(String, i32)>, name: Seq<char>)
    requires
        ids_distinct(table),
    ensures
        lookup(table, name) matches Some(id) ==> name_of_id(table, id) == Some(name),
{
    if let Some(p) = find_key(table, name) {
        let id = table[p].1;
        assert(is_first_key(table, name, p));
        assert(is_first_id(table, id, p));
        let k = choose|k: int| is_first_id(table, id, k);
        assert(k == p);
    }
}

/// The protocol ids of `table` rise strictly along it.
pub open spec fn ids_rise(table: Seq<(String, i32)>) -> bool {
    forall|i: int, j: int| 0 <= i < j < table.len() ==> table[i].1 < table[j].1
}

/// No two entries of `table` share a name.
pub open spec fn names_distinct(table: Seq<(String, i32)>) -> bool {
    forall|i: int, j: int| 0 <= i < j < table.len() ==> table[i].0@ != table[j].0@
}

proof fn lemma_key_found<V>(entries: Seq<(String, V)>, key: Seq<char>, k: int)
    requires
        0 <= k < entries.len(),
        entries[k].0@ == key,
    ensures
        find_key(entries, key) matches Some(i) && i <= k,
    decreases k,
{
    if exists|j: int| 0 <= j < k && entries[j].0@ == key {
        let j = choose|j: int| 0 <= j < k && entries[j].0@ == key;
        lemma_key_found(entries, key, j);
    } else {
        assert(is_first_key(entries, key, k));
        let f = choose|f: int| is_first_key(entries, key, f);
        lemma_first_key_unique(entries, key, k, f);
    }
}

/// Every name of a protocol table resolves to a protocol id, so each name
/// that `entity_type_names` lists is found by `entity_type_id`; in a table
/// whose names are distinct and whose ids rise, each name resolves to the id
/// beside it, and the ids rise along the names in table order.
pub proof fn table_names_resolve_in_id_order(
    data: DataTables,
    version: Version,
    registry_id: Seq<char>,
    i: int,
    j: int,
)
    requires
        spec_protocol_registry(data, version, registry_id) matches Some(table) && 0 <= i < j
            < table.len(),
    ensures
        ({
            let table = spec_protocol_registry(data, version, registry_id)->0;
            let a = spec_protocol_registry_index(data, version, registry_id, table[i].0@);
            let b = spec_protocol_registry_index(data, version, registry_id, table[j].0@);
            &&& a is Some
            &&& b is Some
            &&& names_distinct(table) && ids_rise(table) ==> a == Some(table[i].1) && b == Some(
                table[j].1,
            ) && a->0 < b->0
        }),
{
    let table = spec_protocol_registry(data, version, registry_id)->0;
    lemma_key_found(table, table[i].0@, i);
    lemma_key_found(table, table[j].0@, j);
    if names_distinct(table) {
        let p = find_key(table, table[i].0@)->0;
        let q = find_key(table, table[j].0@)->0;
        assert(is_first_key(table, table[i].0@, p));
        assert(is_first_key(table, table[j].0@, q));
        assert(p == i);
        assert(q == j);
    }
}

/// Whether `table` lists distinct names whose ids rise along it: what the
/// shipped protocol tables promise, checked once when tables are loaded.
pub fn table_in_id_order(table: &ProtocolTable) -> (r: bool)
    ensures
        r == (names_distinct(table@) && ids_rise(table@)),
{
    let mut i: usize = 0;
    while i < table.len()
        invariant
            i <= table@.len(),
            forall|a: int, b: int| 0 <= a < b < i ==> table@[a].1 < table@[b].1,
            forall|a: int, b: int| 0 <= a < b < i ==> table@[a].0@ != table@[b].0@,
        decreases table@.len() - i,
    {
        if i > 0 && table[i - 1].1 >= table[i].1 {
            assert(!ids_rise(table@)) by {
                assert(table@[i - 1].1 >= table@[i as int].1);
            }
            return false;
        }
        let mut j: usize = 0;
        while j < i
            invariant
                j <= i,
                i < table@.len(),
                forall|a: int| 0 <= a < j ==> table@[a].0@ != table@[i as int].0@,
            decreases i - j,
        {
            if table[j].0 == table[i].0 {
                assert(!names_distinct(table@)) by {
                    assert(table@[j as int].0@ == table@[i as int].0@);
                }
                return false;
            }
            j = j + 1;
        }
        i = i + 1;
    }
    true
}

/// The `(protocol version, world version)` filed for `version`.
pub open spec fn spec_version_info(data: DataTables, version: Version) -> Option<(i32, i32)> {
    if exists|i: int| is_first_version(data.version_info@, version_name(version), i) {
        let i = choose|i: int| is_first_version(data.version_info@, version_name(version), i);
        Some((data.version_info@[i].1, data.version_info@[i].2))
    } else {
        None
    }
}

pub open spec fn is_first_version(info: Seq<(String, i32, i32)>, name: Seq<char>, i: int) -> bool {
    &&& 0 <= i < info.len()
    &&& info[i].0@ == name
    &&& forall|j: int| 0 <= j < i ==> info[j].0@ != name
}

fn find_version_info(data: &DataTables, version: Version) -> (r: Option<(i32, i32)>)
    ensures
        r == spec_version_info(*data, version),
{
    let v = to_string(version.id());
    let mut i: usize = 0;
    while i < data.version_info.len()
        invariant
            i <= data.version_info@.len(),
            v@ == version_name(version),
            forall|j: int| 0 <= j < i ==> data.version_info@[j].0@ != version_name(version),
        decreases data.version_info@.len() - i,
    {
        if data.version_info[i].0 == v {
            assert(is_first_version(data.version_info@, version_name(version), i as int));
            proof {
                let k = choose|k: int| is_first_version(data.version_info@, version_name(version), k);
                assert(k == i);
            }
            return Some((data.version_info[i].1, data.version_info[i].2));
        }
        i = i + 1;
    }
    None
}

/// The protocol version number of `version`; every supported version has one.
pub fn protocol_version(data: &DataTables, version: Version) -> (r: i32)
    requires
        spec_version_info(*data, version) is Some,
    ensures
        r == spec_version_info(*data, version)->Some_0.0,
{
    match find_version_info(data, version) {
        Some((protocol, _)) => protocol,
        None => 0,
    }
}

/// The world (data) version number of `version`; every supported version has one.
pub fn world_version(data: &DataTables, version: Version) -> (r: i32)
    requires
        spec_version_info(*data, version) is Some,
    ensures
        r == spec_version_info(*data, version)->Some_0.1,
{
    match find_version_info(data, version) {
        Some((_, world)) => world,
        None => 0,
    }
}

/// The `(packet name, id)` table for a protocol state and direction.
pub open spec fn spec_packets(data: DataTables, version: Version, state: Seq<char>, direction: Seq<char>) -> Option<Seq<(String, i32)>> {
    match lookup(data.packets@, version_name(version)) {
        None => None,
        Some(states) => match lookup2(states@, state, direction) {
            Some(table) => Some(table@),
            None => None,
        },
    }
}

pub fn packets<'d>(data: &'d DataTables, version: Version, state: &str, direction: &str) -> (r: Option<&'d ProtocolTable>)
    ensures
        match r {
            Some(table) => spec_packets(*data, version, state@, direction@) == Some(table@),
            None => spec_packets(*data, version, state@, direction@) is None,
        },
{
    let v = to_string(version.id());
    let i = find_key_index(&data.packets, &v)?;
    let states = &data.packets[i].1;
    let s = to_string(state);
    let j = find_key_index(states, &s)?;
    let directions = &states[j].1;
    let d = to_string(direction);
    let k = find_key_index(directions, &d)?;
    Some(&directions[k].1)
}

pub fn packet_id(data: &DataTables, version: Version, state: &str, direction: &str, name: &str) -> (r: Option<i32>)
    ensures
        r == match spec_packets(*data, version, state@, direction@) {
            Some(table) => lookup(table, name@),
            None => None,
        },
{
    let table = packets(data, version, state, direction)?;
    let n = to_string(name);
    let k = find_key_index(table, &n)?;
    Some(table[k].1)
}

/// A table filed by strictly increasing id.
pub open spec fn ids_sorted<V>(table: Seq<(i32, V)>) -> bool {
    forall|i: int, j: int| 0 <= i < j < table.len() ==> table[i].0 < table[j].0
}

/// The value filed under `id` in a table of distinct ids.
pub open spec fn find_sorted<V>(table: Seq<(i32, V)>, id: i32) -> Option<V> {
    if exists|i: int| 0 <= i < table.len() && table[i].0 == id {
        Some(table[choose|i: int| 0 <= i < table.len() && table[i].0 == id].1)
    } else {
        None
    }
}

/// Binary search for `id` in a table filed by increasing id.
fn sorted_index<V>(table: &Vec<(i32, V)>, id: i32) -> (r: Option<usize>)
    requires
        ids_sorted(table@),
    ensures
        match r {
            Some(i) => i < table@.len() && table@[i as int].0 == id && find_sorted(table@, id)
                == Some(table@[i as int].1),
            None => find_sorted(table@, id) is None,
        },
{
    let mut lo: usize = 0;
    let mut hi: usize = table.len();
    while lo < hi
        invariant
            0 <= lo <= hi <= table@.len(),
            ids_sorted(table@),
            forall|i: int| 0 <= i < lo ==> table@[i].0 < id,
            forall|i: int| hi <= i < table@.len() ==> table@[i].0 > id,
        decreases hi - lo,
    {
        let mid = lo + (hi - lo) / 2;
        let key = table[mid].0;
        if key == id {
            proof {
                let k = choose|k: int| 0 <= k < table@.len() && table@[k].0 == id;
                if k < mid {
                    assert(table@[k].0 < table@[mid as int].0);
                } else if k > mid {
                    assert(table@[mid as int].0 < table@[k].0);
                }
            }
            return Some(mid);
        } else if key < id {
            lo = mid + 1;
        } else {
            hi = mid;
        }
    }
    None
}

/// The tables searched by id are filed by strictly increasing id, and the
/// block entity hosts by increasing first state.
pub open spec fn tables_sorted(data: DataTables) -> bool {
    &&& ids_sorted(data.item_stack_sizes@)
    &&& ids_sorted(data.item_block_states@)
    &&& hosts_sorted(data.block_entity_hosts@)
}

/// The maximum stack size of an item: the filed size, or 64 for an item with
/// none filed.
pub open spec fn spec_item_max_stack(data: DataTables, item_id: i32) -> u8 {
    match find_sorted(data.item_stack_sizes@, item_id) {
        Some(size) => size,
        None => 64,
    }
}

/// Returns the maximum stack size for an item id (64 unless filed otherwise).
pub fn item_max_stack(data: &DataTables, version: Version, item_id: i32) -> (r: u8)
    requires
        tables_sorted(*data),
    ensures
        r == spec_item_max_stack(*data, item_id),
{
    match sorted_index(&data.item_stack_sizes, item_id) {
        Some(i) => data.item_stack_sizes[i].1,
        None => 64,
    }
}

/// Returns the protocol item id of a full item name like `"minecraft:stone"`.
pub fn item_id(data: &DataTables, version: Version, name: &str) -> (r: Option<i32>)
    ensures
        r == lookup(data.item_ids@, name@),
{
    let n = to_string(name);
    let k = find_key_index(&data.item_ids, &n)?;
    Some(data.item_ids[k].1)
}

/// Returns the full item name of a protocol item id.
pub fn item_name<'d>(data: &'d DataTables, version: Version, id: i32) -> (r: Option<&'d String>)
    ensures
        match r {
            Some(name) => name_of_id(data.item_ids@, id) == Some(name@),
            None => name_of_id(data.item_ids@, id) is None,
        },
{
    let i = find_id_index(&data.item_ids, id)?;
    Some(&data.item_ids[i].0)
}

/// Returns the default block state a block item places, if it places one.
pub fn item_default_block_state(data: &DataTables, version: Version, item_id: i32) -> (r: Option<i32>)
    requires
        tables_sorted(*data),
    ensures
        r == find_sorted(data.item_block_states@, item_id),
{
    let i = sorted_index(&data.item_block_states, item_id)?;
    Some(data.item_block_states[i].1)
}

/// Returns every item name, in table order.
pub fn item_names(data: &DataTables, version: Version) -> (names: Vec<String>)
    ensures
        names@.len() == data.item_ids@.len(),
        forall|i: int| 0 <= i < names@.len() ==> #[trigger] names@[i]@ == data.item_ids@[i].0@,
{
    let mut names: Vec<String> = Vec::new();
    let mut i: usize = 0;
    while i < data.item_ids.len()
        invariant
            i <= data.item_ids@.len(),
            names@.len() == i,
            forall|j: int| 0 <= j < i ==> #[trigger] names@[j]@ == data.item_ids@[j].0@,
        decreases data.item_ids@.len() - i,
    {
        names.push(data.item_ids[i].0.clone());
        i = i + 1;
    }
    names
}

/// Host ranges filed by increasing first state.
pub open spec fn hosts_sorted(hosts: Seq<(i32, i32, String)>) -> bool {
    forall|i: int, j: int| 0 <= i < j < hosts.len() ==> hosts[i].0 <= hosts[j].0
}

/// `i` is the last host range that starts at or before `state`.
pub open spec fn is_last_start_at_most(hosts: Seq<(i32, i32, String)>, state: i32, i: int) -> bool {
    &&& 0 <= i < hosts.len()
    &&& hosts[i].0 <= state
    &&& forall|j: int| i < j < hosts.len() ==> hosts[j].0 > state
}

/// The block entity type hosted by block state `state`: the last range that
/// starts at or before the state, if the state also lies at or before its end.
pub open spec fn spec_block_entity_type_for_state(data: DataTables, state: i32) -> Option<Seq<char>> {
    let hosts = data.block_entity_hosts@;
    if exists|i: int| is_last_start_at_most(hosts, state, i) {
        let i = choose|i: int| is_last_start_at_most(hosts, state, i);
        if state <= hosts[i].1 {
            Some(hosts[i].2@)
        } else {
            None
        }
    } else {
        None
    }
}

/// The block entity type hosted by a block state, or `None` when that block
/// carries no block entity.
pub fn block_entity_type_for_state<'d>(data: &'d DataTables, version: Version, block_state_id: i32) -> (r: Option<&'d String>)
    requires
        tables_sorted(*data),
    ensures
        match r {
            Some(kind) => spec_block_entity_type_for_state(*data, block_state_id) == Some(kind@),
            None => spec_block_entity_type_for_state(*data, block_state_id) is None,
        },
{
    let hosts = &data.block_entity_hosts;
    let mut lo: usize = 0;
    let mut hi: usize = hosts.len();
    while lo < hi
        invariant
            0 <= lo <= hi <= hosts@.len(),
            hosts_sorted(hosts@),
            forall|i: int| 0 <= i < lo ==> hosts@[i].0 <= block_state_id,
            forall|i: int| hi <= i < hosts@.len() ==> hosts@[i].0 > block_state_id,
        decreases hi - lo,
    {
        let mid = lo + (hi - lo) / 2;
        if hosts[mid].0 <= block_state_id {
            lo = mid + 1;
        } else {
            hi = mid;
        }
    }
    if lo == 0 {
        proof {
            if exists|i: int| is_last_start_at_most(hosts@, block_state_id, i) {
                let i = choose|i: int| is_last_start_at_most(hosts@, block_state_id, i);
                assert(hosts@[i].0 <= block_state_id);
            }
        }
        return None;
    }
    let idx = lo - 1;
    proof {
        assert(is_last_start_at_most(hosts@, block_state_id, idx as int));
        let k = choose|k: int| is_last_start_at_most(hosts@, block_state_id, k);
        if k < idx {
            assert(hosts@[idx as int].0 > block_state_id);
        } else if k > idx {
            assert(hosts@[k].0 > block_state_id);
        }
    }
    if block_state_id <= hosts[idx].1 {
        Some(&hosts[idx].2)
    } else {
        None
    }
}

/// The synced registry `registry_id` of `version`: `(entry id, NBT bytes)`.
pub open spec fn spec_registry(data: DataTables, version: Version, registry_id: Seq<char>) -> Option<Seq<(String, Vec<u8>)>> {
    match lookup2(data.registries@, version_name(version), registry_id) {
        Some(entries) => Some(entries@),
        None => None,
    }
}

pub fn registry<'d>(data: &'d DataTables, version: Version, registry_id: &str) -> (r: Option<&'d Vec<(String, Vec<u8>)>>)
    ensures
        match r {
            Some(entries) => spec_registry(*data, version, registry_id@) == Some(entries@),
            None => spec_registry(*data, version, registry_id@) is None,
        },
{
    let v = to_string(version.id());
    let i = find_key_index(&data.registries, &v)?;
    let registries = &data.registries[i].1;
    let id = to_string(registry_id);
    let j = find_key_index(registries, &id)?;
    Some(&registries[j].1)
}

/// The index of `entry_id` within `registry_id`: the id the client uses on the
/// wire, as an `i32`.
pub fn registry_index(data: &DataTables, version: Version, registry_id: &str, entry_id: &str) -> (r: Option<i32>)
    ensures
        r == match spec_registry(*data, version, registry_id@) {
            Some(entries) => match find_key(entries, entry_id@) {
                Some(i) => Some(i as i32),
                None => None,
            },
            None => None,
        },
{
    let entries = registry(data, version, registry_id)?;
    let e = to_string(entry_id);
    let k = find_key_index(entries, &e)?;
    Some(k as i32)
}

/// Every synced registry of `version`.
pub open spec fn spec_registries(data: DataTables, version: Version) -> Seq<(String, Vec<(String, Vec<u8>)>)> {
    match lookup(data.registries@, version_name(version)) {
        Some(regs) => regs@,
        None => Seq::empty(),
    }
}

pub fn registries<'d>(data: &'d DataTables, version: Version) -> (r: &'d [(String, Vec<(String, Vec<u8>)>)])
    ensures
        r@ == spec_registries(*data, version),
{
    let v = to_string(version.id());
    match find_key_index(&data.registries, &v) {
        Some(i) => data.registries[i].1.as_slice(),
        None => {
            let empty: &[(String, Vec<(String, Vec<u8>)>)] = &[];
            assert(empty@ =~= Seq::<(String, Vec<(String, Vec<u8>)>)>::empty());
            empty
        },
    }
}

/// The tags of `registry_id` for `version`: `(tag id, entry ids)`.
pub open spec fn spec_tags(data: DataTables, version: Version, registry_id: Seq<char>) -> Seq<(String, Vec<String>)> {
    match lookup2(data.tags@, version_name(version), registry_id) {
        Some(t) => t@,
        None => Seq::empty(),
    }
}

pub fn tags<'d>(data: &'d DataTables, version: Version, registry_id: &str) -> (r: &'d [(String, Vec<String>)])
    ensures
        r@ == spec_tags(*data, version, registry_id@),
{
    let empty: &[(String, Vec<String>)] = &[];
    assert(empty@ =~= Seq::<(String, Vec<String>)>::empty());
    let v = to_string(version.id());
    let i = match find_key_index(&data.tags, &v) {
        Some(i) => i,
        None => return empty,
    };
    let regs = &data.tags[i].1;
    let id = to_string(registry_id);
    match find_key_index(regs, &id) {
        Some(j) => regs[j].1.as_slice(),
        None => empty,
    }
}

/// Every tagged registry of `version`.
pub open spec fn spec_tagged_registries(data: DataTables, version: Version) -> Seq<(String, Vec<(String, Vec<String>)>)> {
    match lookup(data.tags@, version_name(version)) {
        Some(regs) => regs@,
        None => Seq::empty(),
    }
}

pub fn tagged_registries<'d>(data: &'d DataTables, version: Version) -> (r: &'d [(String, Vec<(String, Vec<String>)>)])
    ensures
        r@ == spec_tagged_registries(*data, version),
{
    let v = to_string(version.id());
    match find_key_index(&data.tags, &v) {
        Some(i) => data.tags[i].1.as_slice(),
        None => {
            let empty: &[(String, Vec<(String, Vec<String>)>)] = &[];
            assert(empty@ =~= Seq::<(String, Vec<(String, Vec<String>)>)>::empty());
            empty
        },
    }
}

/// The parsed NBT of `entry_id` in the synced registry `registry_id`: the
/// stored bytes of the first entry with that id, as `Nbt::read` parses them;
/// `None` where the registry or the entry is missing.
pub fn entry_nbt(data: &DataTables, version: Version, registry_id: &str, entry_id: &str) -> (r: Option<
    Result<Nbt, NbtReadError>,
>)
    ensures
        r == match spec_registry(*data, version, registry_id@) {
            Some(entries) => match find_key(entries, entry_id@) {
                Some(i) => Some(nbt_read(entries[i].1@)),
                None => None,
            },
            None => None,
        },
{
    let entries = match registry(data, version, registry_id) {
        Some(entries) => entries,
        None => return None,
    };
    let e = to_string(entry_id);
    let k = match find_key_index(entries, &e) {
        Some(k) => k,
        None => return None,
    };
    Some(read_nbt_stream(entries[k].1.as_slice()))
}

} // verus!
