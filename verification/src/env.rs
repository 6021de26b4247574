pub mod consts;
pub mod event_laws;
pub mod events;
pub mod state;
