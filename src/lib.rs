//! Building blocks of a multi-tenant SSH gateway that shows a graphical game
//! as half-block character art and forwards terminal input back to it.
//!
//! Every item here is plain computation with a contract: the admission
//! queue over display slots, terminal geometry, frame encoding, lossy frame
//! selection, input handling and the per-session admission decisions.
//! Processes, sockets and threads are driven by the application around it.
pub mod size;
pub mod text;
pub mod input;
pub mod pool;
pub mod encode;
pub mod frames;
pub mod capture;
pub mod sink;
pub mod session;
