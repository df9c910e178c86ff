pub mod distribute;
pub mod initialize;
