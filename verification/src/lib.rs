pub mod bucket;
pub mod builder;
pub mod category;
pub mod centrality;
pub mod degree;
pub mod graph;
pub mod laws;
pub mod record;
pub mod text;
