//! Matching the known lyrics against acoustic-model output with CTC forced
//! alignment: [`tokenizer`] turns lyrics into token ids, the Viterbi pass
//! over the CTC trellis (run beside the acoustic model) assigns frames,
//! and [`resolver`] gathers token results into per-line times.

pub mod model;
pub mod resolver;
pub mod tokenizer;
pub mod trellis;
