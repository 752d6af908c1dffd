mod alien;
mod block;
mod collisions;
mod game;
mod geometry;
mod laser;
mod mystery_ship;
mod obstacle;
mod seq_facts;
mod space_ship;

pub use alien::Alien;
pub use alien::Kind;
pub use alien::points;
pub use alien::spec_points;
pub use block::Block;
pub use block::BLOCK_SIZE;
pub use collisions::PlayerPassState;
pub use collisions::any_obstacle_hit;
pub use collisions::count_alien_touches;
pub use collisions::count_laser_hits;
pub use collisions::enemy_laser_cover_hit;
pub use collisions::game_pass_view;
pub use collisions::kills_of_kind;
pub use collisions::lemma_kill_counts_nonneg;
pub use collisions::lemma_score_sum;
pub use collisions::mystery_kills;
pub use collisions::lemma_count_no_alien_touches;
pub use collisions::lemma_count_no_laser_hits;
pub use collisions::lemma_count_single_hit;
pub use collisions::lemma_player_pass_monotone;
pub use collisions::lemma_remove_first_at;
pub use collisions::lemma_remove_first_len;
pub use collisions::lemma_remove_first_none;
pub use collisions::lemma_resolution_order;
pub use collisions::lemma_score_increments;
pub use collisions::missed_by_aliens;
pub use collisions::missed_by_lasers;
pub use collisions::obs_blocks;
pub use collisions::player_laser_step;
pub use collisions::player_pass;
pub use collisions::remove_first_hit;
pub use collisions::strike_all;
pub use game::Config;
pub use game::Game;
pub use game::add_score;
pub use game::advanced_lasers;
pub use game::alien_laser_from;
pub use game::moved_formation;
pub use game::award;
pub use game::dirs_after;
pub use game::dirs_step;
pub use game::kind_for_row;
pub use game::lemma_direction_flip;
pub use game::moved_alien;
pub use game::obstacle_gap;
pub use game::spec_alien_at;
pub use game::spec_formation;
pub use game::spec_obstacle_x;
pub use game::sub_lives;
pub use game::ALIEN_COLS;
pub use game::ALIEN_LASER_SHOOT_INTERVAL_MS;
pub use game::ALIEN_LASER_SPEED;
pub use game::ALIEN_ROWS;
pub use game::ALIEN_SPACING;
pub use game::FORMATION_ORIGIN_X;
pub use game::FORMATION_ORIGIN_Y;
pub use game::MYSTERY_BONUS;
pub use game::START_LIVES;
pub use geometry::Rect;
pub use geometry::overlaps;
pub use geometry::rects_overlap;
pub use geometry::sat_add;
pub use geometry::sat_add_i32;
pub use laser::Laser;
pub use laser::active_lasers;
pub use laser::is_active;
pub use laser::retain_active;
pub use laser::LASER_HEIGHT;
pub use laser::LASER_WIDTH;
pub use mystery_ship::MysteryShip;
pub use mystery_ship::MYSTERY_ALTITUDE;
pub use mystery_ship::MYSTERY_SPEED;
pub use obstacle::Obstacle;
pub use obstacle::any_block_hit;
pub use obstacle::blocks_surviving;
pub use obstacle::cluster_blocks;
pub use obstacle::grid_cell;
pub use obstacle::not_hit_by;
pub use obstacle::row_blocks;
pub use obstacle::GRID_COLS;
pub use obstacle::GRID_ROWS;
pub use space_ship::SpaceShip;
pub use space_ship::PLAYER_FIRE_COOLDOWN_MS;
pub use space_ship::PLAYER_LASER_SPEED;
pub use space_ship::SHIP_STEP;