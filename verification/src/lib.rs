//! Small systems-programming building blocks: in-memory file records,
//! text parsing, hex dumps, an HTTP client state machine, NTP message
//! handling and clock arithmetic, each with a verified contract.

pub mod capitals;
pub mod channels;
pub mod clock;
pub mod dns;
pub mod file_display;
pub mod file_doced;
pub mod file_neat;
pub mod greeting;
pub mod grep;
pub mod hexdump;
pub mod http;
pub mod needles;
pub mod not_quite_file;
pub mod ntp;
pub mod penguins;
pub mod satellites;
pub mod text;
