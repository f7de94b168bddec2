//! One command per intent, and one query.

use vstd::prelude::*;

verus! {

/// Who is answering, and whether there is a key to reach them with. A
/// query rather than an intent: asked on mount, and again once a key has
/// been stored.
pub const STATUS: &'static str = "status";

/// One user turn. Answers whether the turn could be started; the reply
/// itself arrives on the event channel.
pub const SEND_MESSAGE: &'static str = "send_message";

/// A key for the active provider, to be filed and put into use at once.
pub const SET_API_KEY: &'static str = "set_api_key";

/// A GitHub token, to be filed on its own rails and put into use at
/// once. The paste-your-PAT card's one call.
pub const SET_GITHUB_TOKEN: &'static str = "set_github_token";

} // verus!
