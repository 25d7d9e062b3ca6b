//! A line-editing engine for interactive prompts: an edit buffer with a
//! character cursor, readline-style history recall, and the rule that turns a
//! completed line into free text or a command for an injected parser.
//!
//! Terminal access and history storage stay with the host; the engine is a
//! state machine that takes key events and says what to do next.

mod history;
mod input;
mod options;
mod params;
mod session;
mod storage;
mod text;

pub use history::{
    in_memory_history, lemma_push_no_adjacent_dups, next_result, next_scroll, no_adjacent_dups,
    prev_result, prev_scroll, pushed, History,
};
pub use input::{
    classified, classify, command_body, command_prefix, display_name, parser_args,
    parser_invocation, Input, Line, LineView,
};
pub use options::{
    banner_line, banner_lines, default_prompt, prompt_line, Options, OptionsView, PromptOptions,
};
pub use params::Params;
pub use session::{
    in_memory_inputs, lemma_blank_line_completes_nothing, lemma_fall_through_restores_draft,
    lemma_history_no_adjacent_dups, lemma_interrupt_ends_session, lemma_offset_in_bounds,
    lemma_step_wf, outcomes, recalled_down, run, session_wf, step, Inputs, Key, SessionView, Step,
    StepView,
};
pub use storage::{
    decode_history, decoded, encode_history, encoded, lemma_decode_encode, single_lines,
    split_lines,
};
pub use text::{
    all_white, chars_of, is_blank, is_white, lemma_trimmed_empty_iff_all_white, split_words,
    string_of, trim, trim_end, trim_start, trimmed, words,
};
