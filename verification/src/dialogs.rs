pub mod dialogs_label;
pub mod dialogs;
