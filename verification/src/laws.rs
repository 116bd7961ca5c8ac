//! What holds across the library: of the settings and every way to change them, of the choices and
//! their order, of the command that is run and the words that it sings, of what is found on disk and
//! told of a job, and of both interfaces.

pub mod choices;
pub mod command;
pub mod events;
pub mod fields;
pub mod finding;
pub mod fronts;
pub mod keys;
pub mod prompts;
pub mod requests;
pub mod screen;
pub mod settings;
pub mod startup;
pub mod texts;
