use llama_infer::chat::{chat_prompt, story_prompt};

#[test]
fn chat_prompt_wraps_turns() {
    let s = chat_prompt("", "you are a helpful assistant", "who are you?");
    assert_eq!(
        s,
        "<|im_start|>system\nyou are a helpful assistant<|im_end|>\n<|im_start|>user\nwho are you?<|im_end|>\n<|im_start|>assistant"
    );
}

#[test]
fn chat_prompt_keeps_history() {
    let s = chat_prompt("earlier.", "sys", "usr");
    assert!(s.starts_with("earlier.<|im_start|>system\nsys"));
    assert!(s.ends_with("<|im_start|>assistant"));
}

#[test]
fn story_prompt_text() {
    assert_eq!(story_prompt(), "Once upon a time");
}
