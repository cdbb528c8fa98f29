use underground_miner::tools::{
    rotate, tool_sprite_index, ui_tool_is_tool_type, ActiveTool, Lock, PickaxeRotation, ToolType,
    ToolUnlocks, UITool,
};

fn pick(rotation: PickaxeRotation) -> ToolType {
    ToolType::Pickaxe { rotation }
}

fn all_unlocked() -> ToolUnlocks {
    ToolUnlocks {
        tiny_hammer: Lock::Unlocked,
        pickaxe_horizontal: Lock::Unlocked,
        pickaxe_vertical: Lock::Unlocked,
        pickaxe_cross: Lock::Unlocked,
    }
}

#[test]
fn default_unlocks_hammer_and_horizontal_pickaxe() {
    let u = ToolUnlocks::default();
    assert_eq!(u.get_total_unlocks(), 2);
    assert!(u.is_tool_unlocked(ToolType::TinyHammer));
    assert!(u.is_tool_unlocked(pick(PickaxeRotation::Horizontal)));
    assert!(!u.is_tool_unlocked(pick(PickaxeRotation::Vertical)));
    assert!(!u.is_tool_unlocked(pick(PickaxeRotation::Cross)));
    assert_eq!(u.get_tools_for_ui(), vec![UITool::TinyHammer, UITool::Pickaxe]);
    assert_eq!(ActiveTool::default(), ActiveTool(ToolType::TinyHammer));
}

#[test]
fn unlocking_adds_one_variant() {
    let mut u = ToolUnlocks::default();
    u.unlock_tool(pick(PickaxeRotation::Cross));
    assert_eq!(u.get_total_unlocks(), 3);
    assert!(u.is_tool_unlocked(pick(PickaxeRotation::Cross)));
    assert!(!u.is_tool_unlocked(pick(PickaxeRotation::Vertical)));
    u.unlock_tool(pick(PickaxeRotation::Cross));
    assert_eq!(u.get_total_unlocks(), 3);
}

#[test]
fn toolbar_lists_pickaxe_once() {
    let u = ToolUnlocks {
        tiny_hammer: Lock::Locked,
        pickaxe_horizontal: Lock::Locked,
        pickaxe_vertical: Lock::Unlocked,
        pickaxe_cross: Lock::Unlocked,
    };
    assert_eq!(u.get_tools_for_ui(), vec![UITool::Pickaxe]);
    assert_eq!(u.get_total_unlocks(), 2);
    let none = ToolUnlocks {
        tiny_hammer: Lock::Locked,
        pickaxe_horizontal: Lock::Locked,
        pickaxe_vertical: Lock::Locked,
        pickaxe_cross: Lock::Locked,
    };
    assert!(none.get_tools_for_ui().is_empty());
    assert_eq!(all_unlocked().get_total_unlocks(), 4);
}

#[test]
fn pickaxe_button_cycles_rotations_when_all_unlocked() {
    let u = all_unlocked();
    let t1 = u.switch_tool(ToolType::TinyHammer, UITool::Pickaxe);
    assert_eq!(t1, pick(PickaxeRotation::Horizontal));
    let t2 = u.switch_tool(t1, UITool::Pickaxe);
    assert_eq!(t2, pick(PickaxeRotation::Vertical));
    let t3 = u.switch_tool(t2, UITool::Pickaxe);
    assert_eq!(t3, pick(PickaxeRotation::Cross));
    assert_eq!(u.switch_tool(t3, UITool::Pickaxe), pick(PickaxeRotation::Horizontal));
    assert_eq!(u.switch_tool(t3, UITool::TinyHammer), ToolType::TinyHammer);
}

#[test]
fn pickaxe_button_skips_locked_rotations() {
    let mut u = ToolUnlocks::default();
    let h = pick(PickaxeRotation::Horizontal);
    assert_eq!(u.switch_tool(h, UITool::Pickaxe), h);
    u.unlock_tool(pick(PickaxeRotation::Cross));
    assert_eq!(u.switch_tool(h, UITool::Pickaxe), pick(PickaxeRotation::Cross));
    assert_eq!(u.switch_tool(pick(PickaxeRotation::Cross), UITool::Pickaxe), h);
}

#[test]
fn locked_hammer_is_not_selected() {
    let mut u = all_unlocked();
    u.tiny_hammer = Lock::Locked;
    let v = pick(PickaxeRotation::Vertical);
    assert_eq!(u.switch_tool(v, UITool::TinyHammer), v);
}

#[test]
fn rotation_cycle_and_button_matching() {
    assert_eq!(rotate(PickaxeRotation::Horizontal), PickaxeRotation::Vertical);
    assert_eq!(rotate(PickaxeRotation::Vertical), PickaxeRotation::Cross);
    assert_eq!(rotate(PickaxeRotation::Cross), PickaxeRotation::Horizontal);
    assert!(ui_tool_is_tool_type(&UITool::Pickaxe, &pick(PickaxeRotation::Cross)));
    assert!(!ui_tool_is_tool_type(&UITool::Pickaxe, &ToolType::TinyHammer));
    assert!(ui_tool_is_tool_type(&UITool::TinyHammer, &ToolType::TinyHammer));
    assert!(ToolType::Pickaxe { rotation: PickaxeRotation::Vertical }.is_pickaxe());
    assert!(!ToolType::TinyHammer.is_pickaxe());
    assert!(Lock::Unlocked.is_unlocked());
    assert!(!Lock::Locked.is_unlocked());
}

#[test]
fn toolbar_sprite_highlight() {
    assert_eq!(tool_sprite_index(2, true), 10);
    assert_eq!(tool_sprite_index(10, true), 10);
    assert_eq!(tool_sprite_index(10, false), 2);
    assert_eq!(tool_sprite_index(2, false), 2);
}
