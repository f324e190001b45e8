pub mod collisions;
pub mod end_turn;
pub mod entity_render;
pub mod map_render;
pub mod movement;
pub mod player_input;
pub mod random_move;
