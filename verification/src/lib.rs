//! Weather Signal core: the rules that turn daily weather readings into
//! demand flags, threshold matches and summaries, together with the small
//! parsers and policies around them (argument limits, cache keys, retry
//! policy, MCP HTTP path handling).

pub mod text;
pub mod numeric;
pub mod cache;
pub mod signals;
pub mod limits;
pub mod server;
pub mod retry;
pub mod location;
pub mod paths;
pub mod dates;
pub mod requests;
pub mod batch;
pub mod report;
