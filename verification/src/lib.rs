//! Embedding propagation: unsupervised training of fixed-size vector
//! representations for graph nodes from discrete per-node features.
//!
//! The library is organised around a feature store (per-node feature ids and
//! their vocabulary), an embedding model that pools feature embeddings into
//! node embeddings (averaged or attention pooling), a margin ranking loss with
//! gradient extraction, per-batch gradient aggregation, optimizers (plain
//! gradient descent, momentum, Adam), and the training loop that drives them.
//!
//! Scalars are IEEE 754 binary32 values carried as their bit patterns; see
//! `fp` for how their arithmetic is reached and named.

pub mod aggregate;
pub mod attention;
pub mod embedding;
pub mod ep;
pub mod feature_store;
pub mod fp;
pub mod graph;
pub mod loss;
pub mod model;
pub mod optimizer;
pub mod rng;
pub mod strutil;
pub mod vecmath;
pub mod vocab;
