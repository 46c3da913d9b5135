//! Import of neural-network exchange-format graphs into a clean intermediate
//! representation, together with the tensor data types it describes.

pub mod dtype;
pub mod element;
pub mod ir;
pub mod name_map;
pub mod graph_io;
pub mod builder;
pub mod naming;
