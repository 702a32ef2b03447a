pub mod budget;

pub use budget::{priority_label, select_within_budget, render_sections, BudgetSelection};
