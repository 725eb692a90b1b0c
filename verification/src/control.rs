//! What the pointer points at and does, decided frame by frame from
//! where it is and what its button does.

use crate::board::{found, is_piece, is_tile, living_piece_on};
use crate::drag::Drag;
use crate::game_controller::GameController;
use crate::object::{Object, ObjectView};
use crate::picking::{all_fit_screen, spec_pick};
use crate::player::Player;
use crate::screencoord::ScreenCoord;
use vstd::prelude::*;

verus! {

/// What the pointer does.
#[derive(Debug, Clone, Copy, PartialEq, Eq, Structural)]
pub enum MouseAction {
    Idle,
    Dragging,
    Drop,
}

/// What the keyboard asks for.
#[derive(Debug, Clone, Copy, PartialEq, Eq, Structural)]
pub enum KbdAction {
    Quit,
    ReloadShader,
    StartGame,
    Reset,
}

/// The state of the pointer's button at one frame.
#[derive(Debug, Clone, Copy, PartialEq, Eq, Structural)]
pub struct MouseButtons {
    pub pressed: bool,
    pub down: bool,
    pub released: bool,
}

/// What the pointer points at and does, frame by frame.
#[derive(Debug)]
pub struct ControlStatus {
    /// Current action.
    pub action: MouseAction,
    /// Where the pointer meets the board.
    pub mouse_pos: Option<ScreenCoord>,
    /// Piece under the pointer.
    pub hovering: Option<Object>,
    /// The drag that is going on.
    pub dragging: Option<Drag>,
    /// Tile available for the current action.
    pub targeting: Option<Object>,
}

/// Why a tile is lit up.
#[derive(Debug, Clone, Copy, PartialEq, Eq, Structural)]
pub struct TileHighlight {
    /// the piece that is dragged was picked up from the tile
    pub dragged_from: bool,
    /// the pointer targets the tile, and nothing is dragged
    pub targeted: bool,
    /// a move of the piece that is dragged ends on the tile
    pub possible_move: bool,
}

/// An object that may be there, as a mathematical value.
pub open spec fn opt_view(o: Option<Object>) -> Option<ObjectView> {
    match o {
        Some(object) => Some(object@),
        None => None,
    }
}

/// The action that follows `action`: letting go ends a drag with a drop, a
/// press on a piece begins a drag, and a button held down keeps the action
/// going.
pub open spec fn spec_mouse_action(
    action: MouseAction,
    buttons: MouseButtons,
    hovering: bool,
) -> MouseAction {
    if buttons.released {
        if action == MouseAction::Dragging {
            MouseAction::Drop
        } else {
            MouseAction::Idle
        }
    } else if buttons.pressed && hovering {
        MouseAction::Dragging
    } else if buttons.down {
        action
    } else {
        MouseAction::Idle
    }
}

/// The piece under the pointer at `pos`.
pub open spec fn spec_hovered_object(objs: Seq<ObjectView>, pos: Option<ScreenCoord>) -> Option<
    ObjectView,
> {
    match pos {
        Some(p) => spec_pick(p, objs.filter(is_piece())),
        None => None,
    }
}

/// The tile under the pointer at `pos`, unless a living piece of another
/// side than `current` stands on it.
pub open spec fn spec_hovered_tile(
    objs: Seq<ObjectView>,
    current: Player,
    pos: Option<ScreenCoord>,
) -> Option<ObjectView> {
    match pos {
        Some(p) => match spec_pick(p, objs.filter(is_tile())) {
            Some(tile) => match found(objs, living_piece_on(tile.coord)) {
                Some(occupant) => if occupant.player == current {
                    Some(tile)
                } else {
                    None
                },
                None => Some(tile),
            },
            None => None,
        },
        None => None,
    }
}

/// The tile that the pointer targets. With no piece under it, that is the
/// tile under it. Over a piece it is the tile under the pointer where the
/// piece is of the side to move and nothing is going on, or of the other
/// side while something is.
pub open spec fn spec_targeted_tile(
    objs: Seq<ObjectView>,
    current: Player,
    action: MouseAction,
    pos: Option<ScreenCoord>,
    hovering: Option<ObjectView>,
) -> Option<ObjectView> {
    match hovering {
        None => spec_hovered_tile(objs, current, pos),
        Some(object) => {
            let targetable = if action == MouseAction::Idle {
                object.player == current
            } else {
                current.competes() && object.player == current.spec_opponent()
            };
            if pos is Some && targetable {
                spec_pick(pos->0, objs.filter(is_tile()))
            } else {
                None
            }
        },
    }
}

impl Default for ControlStatus {
    fn default() -> (c: ControlStatus)
        ensures
            c.action == MouseAction::Idle,
            c.mouse_pos is None,
            c.hovering is None,
            c.dragging is None,
            c.targeting is None,
    {
        ControlStatus {
            action: MouseAction::Idle,
            mouse_pos: None,
            hovering: None,
            dragging: None,
            targeting: None,
        }
    }
}

impl ControlStatus {
    /// Whether the pointer, where it meets the board, does so at a place
    /// from which distances can be measured.
    pub open spec fn pointer_in_range(pos: Option<ScreenCoord>) -> bool {
        pos is Some ==> pos->0.in_range()
    }

    /// Takes in a frame: where the pointer meets the board of `game` and
    /// what its button does. The piece under the pointer is found first,
    /// then the tile that is targeted, then the action that follows.
    pub fn update(
        &mut self,
        game: &GameController,
        mouse_pos: Option<ScreenCoord>,
        buttons: MouseButtons,
    )
        requires
            Self::pointer_in_range(mouse_pos),
            all_fit_screen(game.board@),
        ensures
            final(self).mouse_pos == mouse_pos,
            opt_view(final(self).hovering) == spec_hovered_object(game.board@, mouse_pos),
            opt_view(final(self).targeting) == spec_targeted_tile(
                game.board@,
                game.game_state.spec_current_player(),
                old(self).action,
                mouse_pos,
                opt_view(final(self).hovering),
            ),
            final(self).action == spec_mouse_action(
                old(self).action,
                buttons,
                final(self).hovering is Some,
            ),
            final(self).dragging == old(self).dragging,
    {
        self.mouse_pos = mouse_pos;
        self.hovering = self.get_hovered_object(game);
        self.targeting = self.get_targeted_tile(game);
        self.action = self.update_mouse_action(buttons);
    }

    /// Why `tile` is lit up, if it is.
    pub open spec fn spec_highlight(self, tile: ObjectView) -> TileHighlight {
        TileHighlight {
            dragged_from: self.dragging is Some && self.dragging->0.object.coord.same_cell(
                tile.coord,
            ),
            targeted: self.dragging is None && self.targeting is Some
                && self.targeting->0.props.oid == tile.props.oid,
            possible_move: self.dragging is Some && exists|i: int|
                0 <= i < self.dragging->0.targets.len() && (
                #[trigger] self.dragging->0.targets@[i]).same_cell(tile.coord),
        }
    }

    /// Tells why `tile` is lit up, if it is.
    pub fn highlight(&self, tile: &Object) -> (h: TileHighlight)
        ensures
            h == self.spec_highlight(tile@),
    {
        let mut dragged_from = false;
        let mut targeted = false;
        let mut possible_move = false;
        match &self.dragging {
            Some(drag) => {
                dragged_from = drag.object.coord == tile.coord;
                possible_move = drag.has_move_to(&tile.coord);
            },
            None => {
                if let Some(target) = &self.targeting {
                    targeted = target.props.oid == tile.props.oid;
                }
            },
        }
        TileHighlight { dragged_from, targeted, possible_move }
    }

    pub fn update_mouse_action(&self, buttons: MouseButtons) -> (action: MouseAction)
        ensures
            action == spec_mouse_action(self.action, buttons, self.hovering is Some),
    {
        if buttons.released {
            if self.action == MouseAction::Dragging {
                return MouseAction::Drop;
            }
        } else if buttons.pressed && self.hovering.is_some() {
            return MouseAction::Dragging;
        } else if buttons.down {
            return self.action;
        }
        MouseAction::Idle
    }

    pub fn get_targeted_tile(&self, game: &GameController) -> (r: Option<Object>)
        requires
            Self::pointer_in_range(self.mouse_pos),
            all_fit_screen(game.board@),
        ensures
            opt_view(r) == spec_targeted_tile(
                game.board@,
                game.game_state.spec_current_player(),
                self.action,
                self.mouse_pos,
                opt_view(self.hovering),
            ),
    {
        match &self.hovering {
            None => self.get_hovered_tile(game),
            Some(object) => {
                let current = game.current_player();
                let targetable = if self.action == MouseAction::Idle {
                    object.owned_by(&current)
                } else {
                    current != Player::God && object.owned_by(&current.opponent())
                };
                if let Some(m_pos) = self.mouse_pos {
                    if targetable {
                        return game.get_tile_at_pos(&m_pos);
                    }
                }
                None
            },
        }
    }

    pub fn get_hovered_object(&self, game: &GameController) -> (r: Option<Object>)
        requires
            Self::pointer_in_range(self.mouse_pos),
            all_fit_screen(game.board@),
        ensures
            opt_view(r) == spec_hovered_object(game.board@, self.mouse_pos),
    {
        match self.mouse_pos {
            Some(coord) => game.get_piece_at_pos(&coord),
            None => None,
        }
    }

    pub fn get_hovered_tile(&self, game: &GameController) -> (r: Option<Object>)
        requires
            Self::pointer_in_range(self.mouse_pos),
            all_fit_screen(game.board@),
        ensures
            opt_view(r) == spec_hovered_tile(
                game.board@,
                game.game_state.spec_current_player(),
                self.mouse_pos,
            ),
    {
        match self.mouse_pos {
            Some(coord) => {
                if let Some(tile) = game.get_tile_at_pos(&coord) {
                    if let Some(occupant) = game.board.contents(&tile.coord) {
                        if !occupant.owned_by(&game.current_player()) {
                            return None;
                        }
                    }
                    Some(tile)
                } else {
                    None
                }
            },
            None => None,
        }
    }
}

} // verus!
