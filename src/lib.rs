//! Data and timing core of a speedrun timer: the run model, the live timer
//! state machine, the layout settings reader, and the text helpers used to
//! write runs and binding declarations.

pub mod time;
pub mod run;
pub mod timer;
pub mod settings;
pub mod layout;
pub mod saver;
pub mod typings;
pub mod text;
