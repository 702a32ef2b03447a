pub mod category;

pub use category::category_matches;
