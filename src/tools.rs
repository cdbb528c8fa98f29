//! Tools, their unlock flags, and switching the active tool.
use vstd::prelude::*;

verus! {

/// Orientation of the pickaxe's area of effect.
#[derive(Debug, Copy, Clone, PartialEq, Eq, Structural)]
pub enum PickaxeRotation {
    Horizontal,
    Vertical,
    Cross,
}

/// A tool the player can mine with.
#[derive(Debug, Copy, Clone, PartialEq, Eq, Structural)]
pub enum ToolType {
    TinyHammer,
    Pickaxe { rotation: PickaxeRotation },
}

/// The tool buttons shown in the toolbar; one button covers every pickaxe rotation.
#[derive(Debug, Copy, Clone, PartialEq, Eq, Structural)]
pub enum UITool {
    TinyHammer,
    Pickaxe,
}

/// Whether one tool variant may be used.
#[derive(Debug, Copy, Clone, PartialEq, Eq, Structural)]
pub enum Lock {
    Unlocked,
    Locked,
}

/// The tool currently in the player's hand.
#[derive(Debug, Copy, Clone, PartialEq, Eq, Structural)]
pub struct ActiveTool(pub ToolType);

/// Request to unlock a tool variant.
#[derive(Debug, Copy, Clone, PartialEq, Eq, Structural)]
pub struct ToolUnlockEvent(pub ToolType);

/// Request to switch to the tool behind a toolbar button.
#[derive(Debug, Copy, Clone, PartialEq, Eq, Structural)]
pub struct SwitchTool(pub UITool);

/// One unlock flag per tool variant.
#[derive(Debug, Copy, Clone, PartialEq, Eq, Structural)]
pub struct ToolUnlocks {
    pub tiny_hammer: Lock,
    pub pickaxe_horizontal: Lock,
    pub pickaxe_vertical: Lock,
    pub pickaxe_cross: Lock,
}

/// The rotation that follows `r` when the pickaxe button is pressed again.
pub open spec fn next_rotation(r: PickaxeRotation) -> PickaxeRotation {
    match r {
        PickaxeRotation::Horizontal => PickaxeRotation::Vertical,
        PickaxeRotation::Vertical => PickaxeRotation::Cross,
        PickaxeRotation::Cross => PickaxeRotation::Horizontal,
    }
}

impl ToolType {
    /// Checks if the tool type is a pickaxe, whatever its rotation.
    pub fn is_pickaxe(&self) -> (r: bool)
        ensures
            r == (*self is Pickaxe),
    {
        matches!(self, ToolType::Pickaxe { .. })
    }
}

impl Default for ToolType {
    fn default() -> (r: Self)
        ensures
            r == ToolType::TinyHammer,
    {
        ToolType::TinyHammer
    }
}

impl Default for ActiveTool {
    fn default() -> (r: Self)
        ensures
            r == ActiveTool(ToolType::TinyHammer),
    {
        ActiveTool(ToolType::TinyHammer)
    }
}

impl Lock {
    pub fn is_unlocked(&self) -> (r: bool)
        ensures
            r == (*self == Lock::Unlocked),
    {
        matches!(self, Lock::Unlocked)
    }
}

impl ToolUnlocks {
    /// The flag that governs `tool`.
    pub open spec fn lock_of(self, tool: ToolType) -> Lock {
        match tool {
            ToolType::TinyHammer => self.tiny_hammer,
            ToolType::Pickaxe { rotation } => match rotation {
                PickaxeRotation::Horizontal => self.pickaxe_horizontal,
                PickaxeRotation::Vertical => self.pickaxe_vertical,
                PickaxeRotation::Cross => self.pickaxe_cross,
            },
        }
    }

    pub open spec fn allows(self, tool: ToolType) -> bool {
        self.lock_of(tool) == Lock::Unlocked
    }

    pub open spec fn allows_rotation(self, r: PickaxeRotation) -> bool {
        self.allows(ToolType::Pickaxe { rotation: r })
    }

    pub open spec fn any_pickaxe(self) -> bool {
        self.allows_rotation(PickaxeRotation::Horizontal) || self.allows_rotation(
            PickaxeRotation::Vertical,
        ) || self.allows_rotation(PickaxeRotation::Cross)
    }

    /// Number of unlocked tool variants.
    pub open spec fn spec_total(self) -> int {
        (if self.tiny_hammer == Lock::Unlocked { 1int } else { 0int }) + (if self.pickaxe_vertical
            == Lock::Unlocked {
            1int
        } else {
            0int
        }) + (if self.pickaxe_horizontal == Lock::Unlocked {
            1int
        } else {
            0int
        }) + (if self.pickaxe_cross == Lock::Unlocked {
            1int
        } else {
            0int
        })
    }

    /// The toolbar buttons to show: the hammer if it is unlocked, then one
    /// pickaxe button if any rotation is unlocked.
    pub open spec fn spec_ui_tools(self) -> Seq<UITool> {
        let hammer: Seq<UITool> = if self.allows(ToolType::TinyHammer) {
            seq![UITool::TinyHammer]
        } else {
            Seq::empty()
        };
        if self.any_pickaxe() {
            hammer.push(UITool::Pickaxe)
        } else {
            hammer
        }
    }

    /// The first unlocked rotation among `r`, `next_rotation(r)` and the one
    /// after that, if any.
    pub open spec fn first_allowed_from(self, r: PickaxeRotation) -> Option<PickaxeRotation> {
        if self.allows_rotation(r) {
            Some(r)
        } else if self.allows_rotation(next_rotation(r)) {
            Some(next_rotation(r))
        } else if self.allows_rotation(next_rotation(next_rotation(r))) {
            Some(next_rotation(next_rotation(r)))
        } else {
            None
        }
    }

    /// The tool in hand after pressing `requested` while holding `active`.
    /// The hammer button selects the hammer. The pickaxe button picks up the
    /// pickaxe in its first unlocked rotation starting from horizontal, or, if
    /// a pickaxe is already in hand, turns it to the next unlocked rotation.
    /// A request that would land on a locked variant leaves the tool as it is.
    pub open spec fn spec_switch(self, active: ToolType, requested: UITool) -> ToolType {
        match requested {
            UITool::TinyHammer => if self.allows(ToolType::TinyHammer) {
                ToolType::TinyHammer
            } else {
                active
            },
            UITool::Pickaxe => {
                let start = match active {
                    ToolType::Pickaxe { rotation } => next_rotation(rotation),
                    ToolType::TinyHammer => PickaxeRotation::Horizontal,
                };
                match self.first_allowed_from(start) {
                    Some(r) => ToolType::Pickaxe { rotation: r },
                    None => active,
                }
            },
        }
    }

    fn rotation_unlocked(&self, r: PickaxeRotation) -> (b: bool)
        ensures
            b == self.allows_rotation(r),
    {
        match r {
            PickaxeRotation::Horizontal => self.pickaxe_horizontal.is_unlocked(),
            PickaxeRotation::Vertical => self.pickaxe_vertical.is_unlocked(),
            PickaxeRotation::Cross => self.pickaxe_cross.is_unlocked(),
        }
    }

    /// Whether `tool` may be used.
    pub fn is_tool_unlocked(&self, tool: ToolType) -> (b: bool)
        ensures
            b == self.allows(tool),
    {
        match tool {
            ToolType::TinyHammer => self.tiny_hammer.is_unlocked(),
            ToolType::Pickaxe { rotation } => self.rotation_unlocked(rotation),
        }
    }

    pub fn get_tools_for_ui(&self) -> (r: Vec<UITool>)
        ensures
            r@ == self.spec_ui_tools(),
    {
        let mut unlocked: Vec<UITool> = Vec::new();
        if self.tiny_hammer.is_unlocked() {
            unlocked.push(UITool::TinyHammer);
        }
        if self.pickaxe_vertical.is_unlocked() || self.pickaxe_horizontal.is_unlocked()
            || self.pickaxe_cross.is_unlocked() {
            unlocked.push(UITool::Pickaxe);
        }
        assert(unlocked@ =~= self.spec_ui_tools());
        unlocked
    }

    pub fn get_total_unlocks(&self) -> (total: u8)
        ensures
            total == self.spec_total(),
            total <= 4,
    {
        let mut total: u8 = 0;

        if self.tiny_hammer.is_unlocked() {
            total += 1;
        }
        if self.pickaxe_vertical.is_unlocked() {
            total += 1;
        }
        if self.pickaxe_horizontal.is_unlocked() {
            total += 1;
        }
        if self.pickaxe_cross.is_unlocked() {
            total += 1;
        }

        total
    }

    fn first_unlocked_from(&self, r: PickaxeRotation) -> (o: Option<PickaxeRotation>)
        ensures
            o == self.first_allowed_from(r),
    {
        let r1 = rotate(r);
        let r2 = rotate(r1);
        if self.rotation_unlocked(r) {
            Some(r)
        } else if self.rotation_unlocked(r1) {
            Some(r1)
        } else if self.rotation_unlocked(r2) {
            Some(r2)
        } else {
            None
        }
    }

    /// The tool in hand after the toolbar button `requested` is pressed while
    /// `active` is held; see `spec_switch`.
    pub fn switch_tool(&self, active: ToolType, requested: UITool) -> (r: ToolType)
        ensures
            r == self.spec_switch(active, requested),
            self.allows(active) ==> self.allows(r),
    {
        match requested {
            UITool::TinyHammer => {
                if self.tiny_hammer.is_unlocked() {
                    ToolType::TinyHammer
                } else {
                    active
                }
            },
            UITool::Pickaxe => {
                let start = match active {
                    ToolType::Pickaxe { rotation } => rotate(rotation),
                    ToolType::TinyHammer => PickaxeRotation::Horizontal,
                };
                match self.first_unlocked_from(start) {
                    Some(r) => ToolType::Pickaxe { rotation: r },
                    None => active,
                }
            },
        }
    }

    /// Marks the variant `tool` as unlocked and leaves the other flags alone.
    pub fn unlock_tool(&mut self, tool: ToolType)
        ensures
            final(self).allows(tool),
            forall|t: ToolType| t != tool ==> final(self).lock_of(t) == old(self).lock_of(t),
    {
        match tool {
            ToolType::TinyHammer => self.tiny_hammer = Lock::Unlocked,
            ToolType::Pickaxe { rotation } => match rotation {
                PickaxeRotation::Horizontal => self.pickaxe_horizontal = Lock::Unlocked,
                PickaxeRotation::Vertical => self.pickaxe_vertical = Lock::Unlocked,
                PickaxeRotation::Cross => self.pickaxe_cross = Lock::Unlocked,
            },
        }
    }
}

impl Default for ToolUnlocks {
    /// The hammer and the horizontal pickaxe start unlocked; the vertical and
    /// cross pickaxes start locked.
    fn default() -> (r: Self)
        ensures
            r.tiny_hammer == Lock::Unlocked,
            r.pickaxe_horizontal == Lock::Unlocked,
            r.pickaxe_vertical == Lock::Locked,
            r.pickaxe_cross == Lock::Locked,
    {
        Self {
            tiny_hammer: Lock::Unlocked,
            pickaxe_horizontal: Lock::Unlocked,
            pickaxe_vertical: Lock::Locked,
            pickaxe_cross: Lock::Locked,
        }
    }
}

/// The rotation that follows `r` in the cycle horizontal, vertical, cross.
pub fn rotate(r: PickaxeRotation) -> (n: PickaxeRotation)
    ensures
        n == next_rotation(r),
{
    match r {
        PickaxeRotation::Horizontal => PickaxeRotation::Vertical,
        PickaxeRotation::Vertical => PickaxeRotation::Cross,
        PickaxeRotation::Cross => PickaxeRotation::Horizontal,
    }
}

/// Whether the toolbar button `ui_tool` stands for `tool_type`.
pub fn ui_tool_is_tool_type(ui_tool: &UITool, tool_type: &ToolType) -> (b: bool)
    ensures
        b == match *ui_tool {
            UITool::TinyHammer => *tool_type is TinyHammer,
            UITool::Pickaxe => *tool_type is Pickaxe,
        },
{
    match ui_tool {
        UITool::TinyHammer => matches!(tool_type, ToolType::TinyHammer),
        UITool::Pickaxe => matches!(tool_type, ToolType::Pickaxe { .. }),
    }
}

/// Atlas index of a toolbar sprite: the highlighted variant sits `8` columns
/// after the plain one.
pub fn tool_sprite_index(current: usize, is_active: bool) -> (r: usize)
    requires
        current < usize::MAX - 8,
    ensures
        is_active ==> r == (if current >= 8 { current } else { (current + 8) as usize }),
        !is_active ==> r == (if current >= 8 { (current - 8) as usize } else { current }),
{
    if is_active {
        if current >= 8 {
            current
        } else {
            current + 8
        }
    } else if current >= 8 {
        current - 8
    } else {
        current
    }
}

} // verus!
