//! The names that a driver of the simulation needs, in one place.

pub use crate::camera::{
    create_and_move_focal_point, drawable, orbit_camera_input, FocalPoint, LookInput, OrbitCamera,
};
pub use crate::gameplay::{gameplay_tick, swarm_tick};
pub use crate::geometry::{Vector3, UNIT};
pub use crate::influence::{
    manage_active_players, manage_player_influence, PlayerInfluenceRadius,
};
pub use crate::player::{
    check_grounded, magnetize, steering, Magnetism, PlayerSettings, Torque,
};
pub use crate::powerups::{colliding_player, manage_powerups, Pickup, Powerup, PowerupArea};
pub use crate::scoring::{
    check_for_loss, deactivate_out_of_bounds_players, manage_goals, score_goal,
    transition_on_win, FloorBounds, ForceTowards, GameManager, GoalArea, ScoredPlayer,
};
pub use crate::state::{
    post_game_choice, toggle_pause, CurrentLevelIndex, DebugMode, GameEvent, GameState,
    PhaseKind, PhaseMachine, PostGameChoice, Transition,
};
pub use crate::swarm::{Swarm, SwarmMember};
pub use crate::time::{clock_face, ClockFace, GameTime};
