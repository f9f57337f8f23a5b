pub mod brush;
pub mod chunk_text;
pub mod sculpt_map;
pub mod undo_redo;
