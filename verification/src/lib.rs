//! An emulator of the Mephisto MM2 chess computer, driven as a chess
//! engine.
//!
//! The machine's firmware runs unchanged on a simulated 65C02. [`bus`] is
//! the board as the processor sees it; [`emu`] is the driver that works the
//! keys and sensors, reads display and LEDs, and keeps a position of its
//! own in step with the firmware's; [`script`] says, as mathematics, what
//! the driver does for each request; [`uci`] is the engine that a chess
//! interface talks to. [`cpu`] hands the processor its instructions, all
//! but the sums of decimal mode, which [`decimal`] works out.
pub mod bus;
pub mod cpu;
pub mod decimal;
pub mod display;
pub mod emu;
pub mod fen;
pub mod keys;
pub mod lcd;
pub mod position;
pub mod rules;
pub mod script;
pub mod uci;
pub mod wire;
