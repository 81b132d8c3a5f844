//! Inventory, items, health and the asset name table.

use game_core::drop_tables::{Drop, DropTableKey};
use game_core::health::{Health, Hitmask, Hurt, HITMASK_ALLY, HITMASK_ENEMY, HITMASK_PLAYER};
use game_core::input::Command;
use game_core::inventory::{Inventory, InventoryItem, INVENTORY_SIZE};
use game_core::item::{
    get_item_type_with_name, EquipmentData, EquipmentType, ItemDetails, ItemRegister,
};
use game_core::renderer::BufferType;
use game_core::tex_key::{get_asset_by_name, AssetNameMap};
use game_core::ui::InventorySlotRef;
use game_core::visual::TilesetEnum;
use game_core::equipment::Helmet;

fn small_register() -> ItemRegister {
    let mut reg = ItemRegister::new();
    reg.push_item(ItemDetails {
        icon: 100,
        equipment_data: None,
        stacks: true,
        name: "Money".to_string(),
    });
    reg.push_item(ItemDetails {
        icon: 101,
        equipment_data: Some(EquipmentData {
            equipment_type: EquipmentType::Helmet,
            anim_key: Some(42),
        }),
        stacks: false,
        name: "Bronze Helmet".to_string(),
    });
    reg
}

#[test]
fn hitmask_collisions() {
    let enemy_attack = Hitmask::default_enemy_attack();
    assert!(enemy_attack.collides(&Hitmask::with_num(HITMASK_PLAYER)));
    assert!(enemy_attack.collides(&Hitmask::with_num(HITMASK_ALLY)));
    assert!(!enemy_attack.collides(&Hitmask::with_num(HITMASK_ENEMY)));
    let player_attack = Hitmask::default_player_attack();
    assert!(player_attack.collides(&Hitmask::with_num(HITMASK_ENEMY)));
    assert!(!player_attack.collides(&Hitmask::with_num(HITMASK_PLAYER)));
    assert!(Hitmask::default_ally_attack().collides(&Hitmask::with_num(HITMASK_ENEMY)));
    assert!(Hitmask::default_neutral_attack().collides(&Hitmask::with_num(HITMASK_PLAYER)));
    let mut m = Hitmask::with_num(0);
    m.set(HITMASK_ENEMY);
    assert_eq!(m, Hitmask(HITMASK_ENEMY));
}

#[test]
fn health_hurt() {
    let mut health = Health::new(10, Hitmask::with_num(HITMASK_PLAYER));
    assert_eq!(health.health, 10);
    let hurt = Hurt { damage: 4, mask: Hitmask::with_num(HITMASK_PLAYER), flags: 0 };
    assert!(!health.hurt(&hurt));
    assert_eq!(health.health, 6);
    assert!(!health.hurt(&hurt));
    assert_eq!(health.health, 2);
    // Damage at or above remaining health floors at zero and kills.
    assert!(health.hurt(&hurt));
    assert_eq!(health.health, 0);
}

#[test]
fn inventory_stacking() {
    let reg = small_register();
    let money = get_item_type_with_name("Money", &reg).unwrap();
    let mut inv = Inventory::new();
    assert!(inv.add_item(InventoryItem::new(money, 10)));
    assert!(inv.add_item(InventoryItem::new(money, 20)));
    // Both stacked into the first slot.
    assert_eq!(inv.items[0], Some(InventoryItem::new(money, 30)));
    assert_eq!(inv.items[1], None);
    // A stack that would reach 100 opens a new slot instead.
    assert!(inv.add_item(InventoryItem::new(money, 95)));
    assert_eq!(inv.items[0], Some(InventoryItem::new(money, 30)));
    assert_eq!(inv.items[1], Some(InventoryItem::new(money, 95)));
}

#[test]
fn inventory_fills_up() {
    let reg = small_register();
    let money = get_item_type_with_name("Money", &reg).unwrap();
    let mut inv = Inventory::new();
    for _ in 0..INVENTORY_SIZE {
        assert!(inv.add_item(InventoryItem::new(money, 99)));
    }
    // Every slot holds a full stack now: nothing fits.
    assert!(!inv.add_item(InventoryItem::new(money, 1)));
}

#[test]
fn inventory_slots_and_equipment() {
    let reg = small_register();
    let money = get_item_type_with_name("Money", &reg).unwrap();
    let helmet = get_item_type_with_name("Bronze Helmet", &reg).unwrap();
    let mut inv = Inventory::new();

    assert!(inv.can_place_item(InventorySlotRef::Inventory(3), money, &reg));
    assert!(inv.can_place_item(InventorySlotRef::Helmet, helmet, &reg));
    assert!(!inv.can_place_item(InventorySlotRef::Helmet, money, &reg));
    assert!(!inv.can_place_item(InventorySlotRef::Weapon, helmet, &reg));

    let item = Some(InventoryItem::new(helmet, 1));
    assert_eq!(inv.set_item(InventorySlotRef::Helmet, item, &reg), Ok(None));
    assert_eq!(inv.get_item_type(InventorySlotRef::Helmet), Some(helmet));
    assert_eq!(inv.set_item(InventorySlotRef::Body, item, &reg), Err(()));

    assert_eq!(inv.take_item(InventorySlotRef::Helmet), item);
    assert_eq!(inv.get_item_type(InventorySlotRef::Helmet), None);
    assert_eq!(inv.take_item(InventorySlotRef::Helmet), None);
}

#[test]
fn item_registry_lookups() {
    let reg = small_register();
    let money = get_item_type_with_name("Money", &reg).unwrap();
    let helmet = get_item_type_with_name("Bronze Helmet", &reg).unwrap();
    assert!(get_item_type_with_name("Excalibur", &reg).is_none());

    assert_eq!(money.get_icon_tex_key(&reg), Some(100));
    assert_eq!(money.equipment_type(&reg), None);
    assert_eq!(money.get_equipment_anim(&reg), None);
    assert_eq!(money.stacks(&reg), Some(true));

    assert_eq!(helmet.get_icon_tex_key(&reg), Some(101));
    assert_eq!(helmet.equipment_type(&reg), Some(EquipmentType::Helmet));
    assert_eq!(helmet.get_equipment_anim(&reg), Some(42));
    assert_eq!(helmet.stacks(&reg), Some(false));
}

#[test]
fn asset_name_table() {
    let mut names = AssetNameMap::new();
    assert_eq!(get_asset_by_name(&names, "TilesetGrass"), None);
    names.insert("TilesetGrass".to_string(), 7);
    names.insert("BronzeHelmetAnim".to_string(), 8);
    assert_eq!(get_asset_by_name(&names, "TilesetGrass"), Some(7));
    assert_eq!(get_asset_by_name(&names, "BronzeHelmetAnim"), Some(8));
    // A rebind shadows the earlier binding.
    names.insert("TilesetGrass".to_string(), 9);
    assert_eq!(get_asset_by_name(&names, "TilesetGrass"), Some(9));

    assert_eq!(TilesetEnum::Grass.convert_to_tex_key(&names), Some(9));
    assert_eq!(Helmet::BronzeHelmet.get_anim_key(&names), Some(8));
}

#[test]
fn plain_component_values() {
    let reg = small_register();
    let money = get_item_type_with_name("Money", &reg).unwrap();
    let d = Drop { item: money, min_num: 1, max_num: 3 };
    assert_eq!(d.min_num, 1);
    assert!(DropTableKey::Slime == DropTableKey::Slime);
    assert_ne!(Command::MoveLeft, Command::MoveRight);
    assert!(matches!(BufferType::Game, BufferType::Game));
}
