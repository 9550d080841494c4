pub mod stats;

pub use stats::APIFilteringStatsConfig;
