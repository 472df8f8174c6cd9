use voidmc::commands::{circle_entity, CircleRefusal};
use voidmc::data::{
    block_entity_type_for_state, block_entity_type_id, block_entity_type_name,
    data_component_type_id, entity_type_id, entity_type_names, is_summonable_entity_type,
    item_default_block_state, item_id, item_max_stack, item_name, item_names, menu_id,
    non_summonable_entity_types, packet_id, packets, particle_type_id, protocol_registry,
    protocol_registry_index, protocol_version, registries, registry, registry_index,
    sound_event_id, table_in_id_order, tagged_registries, tags, world_version, entry_nbt, DataTables,
    Version,
};

// Block states of the fixture below.
const STONE: i32 = 1;
const CHEST: i32 = 3010;
const OAK_SIGN: i32 = 4302;
const OAK_WALL_SIGN_MAX: i32 = 4869;
const OAK_HANGING_SIGN: i32 = 4870;
const PLAYER_HEAD: i32 = 9790;
const RED_WALL_BANNER: i32 = 11400;

fn table(entries: &[(&str, i32)]) -> Vec<(String, i32)> {
    entries
        .iter()
        .map(|(name, id)| (name.to_string(), *id))
        .collect()
}

fn sound_events() -> Vec<(String, i32)> {
    let mut events: Vec<(String, i32)> = (0..1313)
        .map(|i| (format!("minecraft:sound.{i}"), i))
        .collect();
    events.push(("minecraft:entity.player.levelup".to_string(), 1313));
    for i in 1314..1600 {
        events.push((format!("minecraft:sound.{i}"), i));
    }
    events
}

fn fixture() -> DataTables {
    let version = "26.1.2".to_string();
    DataTables {
        protocol_registries: vec![(
            version.clone(),
            vec![
                (
                    "minecraft:entity_type".to_string(),
                    table(&[
                        ("minecraft:creeper", 32),
                        ("minecraft:zombie", 150),
                        ("minecraft:player", 155),
                        ("minecraft:fishing_bobber", 156),
                    ]),
                ),
                (
                    "minecraft:particle_type".to_string(),
                    table(&[("minecraft:dust", 14)]),
                ),
                ("minecraft:sound_event".to_string(), sound_events()),
                (
                    "minecraft:block_entity_type".to_string(),
                    table(&[("minecraft:furnace", 0), ("minecraft:chest", 1)]),
                ),
                (
                    "minecraft:menu".to_string(),
                    table(&[("minecraft:generic_9x3", 2)]),
                ),
                (
                    "minecraft:data_component_type".to_string(),
                    table(&[("minecraft:custom_data", 0)]),
                ),
            ],
        )],
        version_info: vec![(version.clone(), 775, 4790)],
        packets: vec![(
            version.clone(),
            vec![
                (
                    "play".to_string(),
                    vec![
                        (
                            "clientbound".to_string(),
                            table(&[
                                ("minecraft:bundle_delimiter", 0),
                                ("minecraft:add_entity", 1),
                            ]),
                        ),
                        (
                            "serverbound".to_string(),
                            table(&[("minecraft:accept_teleportation", 0)]),
                        ),
                    ],
                ),
                (
                    "handshake".to_string(),
                    vec![(
                        "serverbound".to_string(),
                        table(&[("minecraft:intention", 0)]),
                    )],
                ),
            ],
        )],
        registries: vec![(
            version.clone(),
            vec![(
                "minecraft:dimension_type".to_string(),
                vec![
                    ("minecraft:overworld".to_string(), vec![0x0a, 0x00]),
                    ("minecraft:the_nether".to_string(), vec![0x0a, 0x00]),
                ],
            )],
        )],
        tags: vec![(
            version.clone(),
            vec![(
                "minecraft:block".to_string(),
                vec![(
                    "minecraft:logs".to_string(),
                    vec!["minecraft:oak_log".to_string()],
                )],
            )],
        )],
        non_summonable_entity_types: vec![(
            version,
            vec![
                "minecraft:player".to_string(),
                "minecraft:fishing_bobber".to_string(),
            ],
        )],
        item_stack_sizes: vec![(840, 1), (901, 16)],
        item_ids: vec![
            ("minecraft:air".to_string(), 0),
            ("minecraft:diamond_sword".to_string(), 840),
            ("minecraft:ender_pearl".to_string(), 901),
            ("minecraft:stone".to_string(), 1),
        ],
        item_block_states: vec![(1, STONE)],
        block_entity_hosts: vec![
            (CHEST, CHEST + 23, "minecraft:chest".to_string()),
            (OAK_SIGN, OAK_WALL_SIGN_MAX, "minecraft:sign".to_string()),
            (OAK_HANGING_SIGN, OAK_HANGING_SIGN + 63, "minecraft:hanging_sign".to_string()),
            (PLAYER_HEAD, PLAYER_HEAD + 31, "minecraft:skull".to_string()),
            (RED_WALL_BANNER - 64, RED_WALL_BANNER + 3, "minecraft:banner".to_string()),
        ],
    }
}

#[test]
fn entity_type_protocol_ids_come_from_protocol_registry_data() {
    let data = fixture();
    assert_eq!(
        entity_type_id(&data, Version::V26_1_2, "minecraft:creeper"),
        Some(32)
    );
    assert_eq!(
        entity_type_id(&data, Version::V26_1_2, "minecraft:zombie"),
        Some(150)
    );
    assert_eq!(
        entity_type_id(&data, Version::V26_1_2, "minecraft:player"),
        Some(155)
    );
    assert_eq!(
        entity_type_id(&data, Version::V26_1_2, "minecraft:not_real"),
        None
    );
}

#[test]
fn hardcoded_registries_are_all_shipped() {
    let data = fixture();
    let v = Version::V26_1_2;
    assert_eq!(particle_type_id(&data, v, "minecraft:dust"), Some(14));
    assert_eq!(particle_type_id(&data, v, "minecraft:not_real"), None);
    assert_eq!(
        sound_event_id(&data, v, "minecraft:entity.player.levelup"),
        Some(1313)
    );
    assert_eq!(block_entity_type_id(&data, v, "minecraft:chest"), Some(1));
    assert_eq!(
        block_entity_type_name(&data, v, 1).map(|s| s.as_str()),
        Some("minecraft:chest")
    );
    assert_eq!(block_entity_type_name(&data, v, 4096), None);
    assert_eq!(menu_id(&data, v, "minecraft:generic_9x3"), Some(2));
    assert_eq!(
        data_component_type_id(&data, v, "minecraft:custom_data"),
        Some(0)
    );
    assert_eq!(
        protocol_registry_index(&data, v, "minecraft:entity_type", "minecraft:creeper"),
        Some(32)
    );
    assert!(
        protocol_registry(&data, v, "minecraft:sound_event")
            .unwrap()
            .len()
            > 1500,
        "sound_event registry looks truncated"
    );
}

#[test]
fn version_info_comes_from_server_jar() {
    let data = fixture();
    assert_eq!(protocol_version(&data, Version::V26_1_2), 775);
    assert_eq!(world_version(&data, Version::V26_1_2), 4790);
}

#[test]
fn packet_ids_come_from_mojang_report() {
    let data = fixture();
    let v = Version::V26_1_2;
    assert_eq!(
        packet_id(&data, v, "play", "clientbound", "minecraft:bundle_delimiter"),
        Some(0)
    );
    assert_eq!(
        packet_id(&data, v, "play", "clientbound", "minecraft:add_entity"),
        Some(1)
    );
    assert_eq!(
        packet_id(&data, v, "play", "serverbound", "minecraft:accept_teleportation"),
        Some(0)
    );
    assert_eq!(
        packet_id(&data, v, "handshake", "serverbound", "minecraft:intention"),
        Some(0)
    );
    assert_eq!(
        packet_id(&data, v, "handshake", "clientbound", "minecraft:intention"),
        None
    );
    assert_eq!(packets(&data, v, "status", "clientbound"), None);
}

#[test]
fn summonable_entity_validation_rejects_special_runtime_types() {
    let data = fixture();
    assert!(is_summonable_entity_type(
        &data,
        Version::V26_1_2,
        "minecraft:zombie"
    ));
    assert!(!is_summonable_entity_type(
        &data,
        Version::V26_1_2,
        "minecraft:player"
    ));
    assert!(!is_summonable_entity_type(
        &data,
        Version::V26_1_2,
        "minecraft:fishing_bobber"
    ));
    assert!(!is_summonable_entity_type(
        &data,
        Version::V26_1_2,
        "minecraft:not_real"
    ));
}

#[test]
fn entity_type_names_follow_the_protocol_table() {
    let data = fixture();
    assert_eq!(
        entity_type_names(&data, Version::V26_1_2),
        vec![
            "minecraft:creeper".to_string(),
            "minecraft:zombie".to_string(),
            "minecraft:player".to_string(),
            "minecraft:fishing_bobber".to_string(),
        ]
    );
    assert_eq!(
        non_summonable_entity_types(&data, Version::V26_1_2).len(),
        2
    );
}

#[test]
fn item_ids_resolve_both_directions() {
    let data = fixture();
    assert_eq!(item_id(&data, Version::V26_1_2, "minecraft:air"), Some(0));
    assert_eq!(item_id(&data, Version::V26_1_2, "minecraft:stone"), Some(1));
    assert_eq!(item_id(&data, Version::V26_1_2, "minecraft:not_real"), None);
    assert_eq!(
        item_name(&data, Version::V26_1_2, 1).map(|s| s.as_str()),
        Some("minecraft:stone")
    );
    assert_eq!(item_name(&data, Version::V26_1_2, -1), None);
}

#[test]
fn item_max_stack_sizes() {
    let data = fixture();
    let v = Version::V26_1_2;
    // Default for most items.
    let stone = item_id(&data, v, "minecraft:stone").unwrap();
    assert_eq!(item_max_stack(&data, v, stone), 64);
    // Tools are unstackable.
    let sword = item_id(&data, v, "minecraft:diamond_sword").unwrap();
    assert_eq!(item_max_stack(&data, v, sword), 1);
    // Ender pearls stack to 16.
    let pearl = item_id(&data, v, "minecraft:ender_pearl").unwrap();
    assert_eq!(item_max_stack(&data, v, pearl), 16);
}

#[test]
fn item_stack_sizes_default_to_sixty_four() {
    let data = fixture();
    let v = Version::V26_1_2;
    assert_eq!(item_max_stack(&data, v, 2), 64);
    assert_eq!(item_max_stack(&data, v, -1), 64);
    assert_eq!(item_max_stack(&data, v, i32::MAX), 64);
}

#[test]
fn block_items_map_to_their_default_state() {
    let data = fixture();
    // The stone item places the stone block.
    let stone_item = item_id(&data, Version::V26_1_2, "minecraft:stone").unwrap();
    assert_eq!(
        item_default_block_state(&data, Version::V26_1_2, stone_item),
        Some(STONE)
    );
    // A non-block item (a tool) has no block state.
    let sword = item_id(&data, Version::V26_1_2, "minecraft:diamond_sword").unwrap();
    assert_eq!(
        item_default_block_state(&data, Version::V26_1_2, sword),
        None
    );
}

#[test]
fn item_names_list_every_item() {
    let data = fixture();
    let names = item_names(&data, Version::V26_1_2);
    assert_eq!(names.len(), 4);
    assert_eq!(names[3], "minecraft:stone");
}

#[test]
fn block_entity_hosts_come_from_block_state_ranges() {
    let data = fixture();
    let v = Version::V26_1_2;
    let kind = |state: i32| block_entity_type_for_state(&data, v, state).map(|s| s.as_str());
    assert_eq!(kind(OAK_SIGN), Some("minecraft:sign"));
    assert_eq!(kind(OAK_WALL_SIGN_MAX), Some("minecraft:sign"));
    assert_eq!(kind(OAK_HANGING_SIGN), Some("minecraft:hanging_sign"));
    assert_eq!(kind(PLAYER_HEAD), Some("minecraft:skull"));
    assert_eq!(kind(RED_WALL_BANNER), Some("minecraft:banner"));
    assert_eq!(kind(CHEST), Some("minecraft:chest"));
    assert_eq!(kind(STONE), None);
    assert_eq!(kind(-1), None);
    assert_eq!(kind(i32::MAX), None);
}

#[test]
fn synced_registries_and_tags_are_found_by_name() {
    let data = fixture();
    let v = Version::V26_1_2;
    assert_eq!(
        registry_index(&data, v, "minecraft:dimension_type", "minecraft:the_nether"),
        Some(1)
    );
    assert_eq!(
        registry_index(&data, v, "minecraft:dimension_type", "minecraft:the_end"),
        None
    );
    assert_eq!(
        registry(&data, v, "minecraft:dimension_type").map(|r| r.len()),
        Some(2)
    );
    assert!(registry(&data, v, "minecraft:biome").is_none());
    assert_eq!(registries(&data, v).len(), 1);
    assert_eq!(tags(&data, v, "minecraft:block").len(), 1);
    assert!(tags(&data, v, "minecraft:item").is_empty());
    assert_eq!(tagged_registries(&data, v).len(), 1);
}

#[test]
fn circle_summons_known_summonable_entities() {
    let data = fixture();
    assert_eq!(circle_entity(&data, Some("minecraft:zombie")), Ok(150));
    let refused = circle_entity(&data, Some("minecraft:player")).unwrap_err();
    assert_eq!(
        refused,
        CircleRefusal::NotSummonable("minecraft:player".to_string())
    );
    assert_eq!(
        refused.message(),
        "Entity type is not summonable: minecraft:player"
    );
    let unknown = circle_entity(&data, None).unwrap_err();
    assert_eq!(unknown, CircleRefusal::Unknown("minecraft:pig".to_string()));
    assert_eq!(unknown.message(), "Unknown entity type 'minecraft:pig'.");
}

#[test]
fn registry_entries_are_parsed_from_their_stored_bytes() {
    let mut data = fixture();
    data.registries[0].1[0].1.push((
        "minecraft:the_end".to_string(),
        vec![0x0a, 0x00, 0x00, 0x00],
    ));
    let v = Version::V26_1_2;
    assert!(entry_nbt(&data, v, "minecraft:dimension_type", "minecraft:the_end")
        .unwrap()
        .is_ok());
    assert!(entry_nbt(&data, v, "minecraft:dimension_type", "minecraft:the_nether")
        .unwrap()
        .is_err());
    assert!(entry_nbt(&data, v, "minecraft:dimension_type", "minecraft:the_void").is_none());
    assert!(entry_nbt(&data, v, "minecraft:biome", "minecraft:plains").is_none());
}

#[test]
fn listed_entity_types_resolve_in_rising_id_order() {
    let data = fixture();
    let v = Version::V26_1_2;
    let ids: Vec<i32> = entity_type_names(&data, v)
        .iter()
        .map(|n| entity_type_id(&data, v, n).unwrap())
        .collect();
    assert!(ids.windows(2).all(|w| w[0] < w[1]));
}

#[test]
fn protocol_tables_are_checked_for_id_order() {
    let data = fixture();
    let v = Version::V26_1_2;
    assert!(table_in_id_order(protocol_registry(&data, v, "minecraft:entity_type").unwrap()));
    assert!(table_in_id_order(&table(&[])));
    assert!(!table_in_id_order(&table(&[("a", 1), ("b", 1)])));
    assert!(!table_in_id_order(&table(&[("a", 2), ("b", 1)])));
    assert!(!table_in_id_order(&table(&[("a", 1), ("a", 2)])));
}
