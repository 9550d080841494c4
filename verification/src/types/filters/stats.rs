use vstd::prelude::*;

verus! {

/// How many elements of each kind a filter sent by a client may hold.
#[derive(Debug, Clone)]
pub struct APIFilteringStatsConfig {
    pub field_count: usize,
    pub const_count: usize,
    pub expression_count: usize,
    pub function_count: usize,
}

impl Default for APIFilteringStatsConfig {
    fn default() -> (r: Self)
        ensures
            r.field_count == 0,
            r.const_count == 0,
            r.expression_count == 0,
            r.function_count == 0,
    {
        APIFilteringStatsConfig {
            field_count: 0,
            const_count: 0,
            expression_count: 0,
            function_count: 0,
        }
    }
}

} // verus!
