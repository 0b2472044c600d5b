//! A local work queue shared by agents: goals group tasks, agents lease
//! tasks through a claim protocol, leases expire unless kept alive, and a
//! goal's status is always derived from the statuses of its tasks.

pub mod text;
pub mod model;
pub mod sync;
pub mod board;
pub mod lifecycle;
pub mod laws;
pub mod render;
pub mod orchestrator;
pub mod watchdog;
pub mod output;
pub mod toon;
pub mod cli;
pub mod version;

pub use board::{settle_claim, Board, ClaimResult};
pub use cli::{command_key, current_agent, extract_output_mode, instructions_copilot, instructions_cursor, instructions_windsurf, CommandKind};
pub use lifecycle::{TaskError, LEASE_TTL_SECS};
pub use model::{Goal, GoalStatus, Memory, MemoryKind, Priority, Task, TaskStatus};
pub use orchestrator::{Orchestrator, PoolError};
pub use output::{ago, age_at, format_age, gen_id, id_from, now_ts, paint, priority_icon, status_icon, OutputCtx, OutputMode};
pub use render::{base36, decimal};
pub use sync::goal_status_for;
pub use text::{is_blank, starts_with, text_eq};
pub use toon::{escape_toon, ToonBuilder};
pub use watchdog::Watchdog;
pub use version::is_newer;
