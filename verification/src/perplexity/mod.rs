pub mod models;
pub mod search;
pub mod session;
pub mod types;

pub use session::{make_cookie, CookieTokens, SubscriptionTier, ThreadState};
pub use types::{SearchMode, SearchParams, SearchProfile};
