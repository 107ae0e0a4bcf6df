//! What looks at statements before they run.

pub mod intercept;
