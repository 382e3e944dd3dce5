//! The SQL text that reads stored agent turns.

use vstd::prelude::*;

verus! {

/// The column list and table of an agent turn read.
pub const TURN_SELECT_PREFIX: &'static str = "SELECT id, session_id, ordinal, user_text, agent_text, state, error_code, provider_profile_id, model_id, provider_request_id, provider_response_id, usage_input_tokens, usage_output_tokens, project_id, project_instructions, prompt_version, started_at_unix_ms, finished_at_unix_ms FROM agent_turns";

/// The turn read followed by `suffix`, its filter and ordering.
pub fn turn_select(suffix: &str) -> (sql: String)
    ensures
        sql@ == TURN_SELECT_PREFIX@ + suffix@,
{
    let mut sql = String::new();
    sql.append(TURN_SELECT_PREFIX);
    sql.append(suffix);
    sql
}

} // verus!
