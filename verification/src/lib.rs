//! Shape, configuration and bookkeeping logic of a neural-network layer
//! library: layer constructors and the shapes and names of their
//! parameters, training and evaluation modes, the input checks and output
//! shapes of the layers that have them, and classification metrics computed
//! exactly over class indices.

pub mod activation;
pub mod attention;
pub mod batchnorm;
pub mod conv;
pub mod embedding;
pub mod error;
pub mod flatten;
pub mod groupnorm;
pub mod init;
pub mod layernorm;
pub mod linear;
pub mod loss;
pub mod metrics;
pub mod module;
pub mod rmsnorm;
pub mod rnn;
pub mod sequential;
pub mod shape;
pub mod sums;
pub mod text;
pub mod transformer;

pub use activation::{GeLU, Mish, ReLU, SiLU, Sigmoid, Tanh};
pub use attention::MultiHeadAttention;
pub use batchnorm::BatchNorm2d;
pub use conv::{AdaptiveAvgPool2d, AvgPool2d, Conv1d, Conv2d, MaxPool2d};
pub use embedding::Embedding;
pub use error::NnError;
pub use flatten::Flatten;
pub use groupnorm::GroupNorm;
pub use layernorm::LayerNorm;
pub use linear::Linear;
pub use loss::Reduction;
pub use metrics::{
    accuracy, argmax_classes, classification_report, tensor_accuracy, top_k_accuracy, Average,
    ConfusionMatrix, Ratio,
};
pub use module::Module;
pub use rmsnorm::RMSNorm;
pub use rnn::{GRUCell, LSTMCell, RNNCell, GRU, LSTM, RNN};
pub use sequential::Sequential;
pub use transformer::TransformerBlock;
