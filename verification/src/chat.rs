use vstd::prelude::*;

verus! {

/// Builds the chat-format prompt: the running history, then a system turn
/// and a user turn delimited by the sentinel tokens, then an opening
/// assistant marker for the model to continue from.
pub fn chat_prompt(history: &str, system_message: &str, user_message: &str) -> (s: String)
    ensures
        s@ == history@ + "<|im_start|>system\n"@ + system_message@
            + "<|im_end|>\n<|im_start|>user\n"@ + user_message@
            + "<|im_end|>\n<|im_start|>assistant"@,
{
    let mut s = String::from_str(history);
    s.append("<|im_start|>system\n");
    s.append(system_message);
    s.append("<|im_end|>\n<|im_start|>user\n");
    s.append(user_message);
    s.append("<|im_end|>\n<|im_start|>assistant");
    proof {
        assert(s@ =~= history@ + "<|im_start|>system\n"@ + system_message@
            + "<|im_end|>\n<|im_start|>user\n"@ + user_message@
            + "<|im_end|>\n<|im_start|>assistant"@);
    }
    s
}

/// The prompt used for the story endpoint.
pub fn story_prompt() -> (s: String)
    ensures
        s@ == "Once upon a time"@,
{
    String::from_str("Once upon a time")
}

} // verus!
