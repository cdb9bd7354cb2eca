//! A small entity-component core: generational entity handles, sparse-set
//! component pools, double-buffered event queues, a fixed-step clock,
//! keyboard state and ordered system schedules.

pub mod buffer;
pub mod component;
pub mod entity;
pub mod event;
pub mod frame;
pub mod input;
pub mod mesh;
pub mod pool;
pub mod position;
pub mod schedule;
pub mod surface;
pub mod time;

pub use entity::{Entities, Entity};
pub use component::{despawn, grow_slots, Component, ComponentId, Components, ErasedPool, TypeTable};
pub use pool::{Iter as PoolIter, IterMut as PoolIterMut, Pool};
pub use event::{ErasedEvents, Event, EventId, EventTypes, Events};
pub use time::{Clock, TickRate};
pub use input::{Key, KeySet, KeyState, KeyboardInput};
pub use schedule::Schedule;
pub use position::Position;
pub use surface::{ensure_size_action, pick_format, resize_action, surface_action, SizeAction, SurfaceAction, SurfaceStatus};
pub use frame::{window_wait_step, FrameAction, FrameDriver, FrameEvent, FrameStage, WindowWait, WINDOW_WAIT_PUMPS};

pub use glam;
