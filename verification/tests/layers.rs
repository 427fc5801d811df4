use shrew_nn::activation::{GeLU, Mish, ReLU, SiLU, Sigmoid, Tanh};
use shrew_nn::attention::MultiHeadAttention;
use shrew_nn::batchnorm::BatchNorm2d;
use shrew_nn::conv::{output_size, AdaptiveAvgPool2d, AvgPool2d, Conv1d, Conv2d, MaxPool2d};
use shrew_nn::embedding::Embedding;
use shrew_nn::error::NnError;
use shrew_nn::flatten::Flatten;
use shrew_nn::groupnorm::GroupNorm;
use shrew_nn::layernorm::LayerNorm;
use shrew_nn::rmsnorm::RMSNorm;
use shrew_nn::linear::Linear;
use shrew_nn::module::Module;
use shrew_nn::rnn::{GRUCell, LSTMCell, RNNCell, GRU, LSTM, RNN};
use shrew_nn::sequential::Sequential;
use shrew_nn::transformer::TransformerBlock;

fn names(named: &[(String, Vec<usize>)]) -> Vec<String> {
    named.iter().map(|(n, _)| n.clone()).collect()
}

#[test]
fn linear_parameter_shapes() {
    let l = Linear::new(784, 128, true);
    assert_eq!(l.in_features(), 784);
    assert_eq!(l.out_features(), 128);
    assert_eq!(l.parameters(), vec![vec![128, 784], vec![1, 128]]);
    assert_eq!(l.num_parameters(), 128 * 784 + 128);
    assert_eq!(names(&l.named_parameters()), vec!["weight", "bias"]);
    let nb = Linear::new(3, 2, false);
    assert_eq!(nb.parameters(), vec![vec![2, 3]]);
    assert!(nb.bias().is_none());
    assert!(nb.is_training());
}

#[test]
fn linear_from_tensors() {
    let l = Linear::from_tensors(vec![5, 7], Some(vec![5])).ok().unwrap();
    assert_eq!((l.in_features(), l.out_features()), (7, 5));
    assert_eq!(l.bias(), Some(&vec![5]));
    assert_eq!(
        Linear::from_tensors(vec![5, 7, 1], None).err(),
        Some(NnError::WrongRank { expected: 2, got: 3 })
    );
}

#[test]
fn conv2d_shapes() {
    let conv = Conv2d::new(1, 16, [3, 3], [1, 1], [1, 1], true);
    assert_eq!(conv.output_shape(&[4, 1, 28, 28]), Some(vec![4, 16, 28, 28]));
    assert_eq!(conv.weight(), &vec![16, 1, 3, 3]);
    assert_eq!(conv.parameters(), vec![vec![16, 1, 3, 3], vec![16]]);
    assert_eq!(conv.num_parameters(), 16 * 9 + 16);
    assert_eq!(conv.kernel_size(), [3, 3]);
    assert_eq!(conv.stride(), [1, 1]);
    assert_eq!(conv.padding(), [1, 1]);
    assert_eq!((conv.in_channels(), conv.out_channels()), (1, 16));
    // wrong channel count or rank
    assert_eq!(conv.output_shape(&[4, 3, 28, 28]), None);
    assert_eq!(conv.output_shape(&[1, 28, 28]), None);
    let strided = Conv2d::new(3, 8, [5, 5], [2, 2], [0, 0], false);
    assert_eq!(strided.output_shape(&[1, 3, 32, 32]), Some(vec![1, 8, 14, 14]));
}

#[test]
fn conv2d_from_tensors() {
    let c = Conv2d::from_tensors(vec![8, 3, 5, 4], None, [1, 2], [0, 1]).ok().unwrap();
    assert_eq!(c.kernel_size(), [5, 4]);
    assert_eq!((c.in_channels(), c.out_channels()), (3, 8));
    assert_eq!(c.stride(), [1, 2]);
    assert!(c.bias().is_none());
    assert_eq!(
        Conv2d::from_tensors(vec![8, 3], None, [1, 1], [0, 0]).err(),
        Some(NnError::WrongRank { expected: 4, got: 2 })
    );
}

#[test]
fn window_output_size() {
    assert_eq!(output_size(28, 3, 1, 1), Some(28));
    assert_eq!(output_size(7, 2, 2, 0), Some(3));
    assert_eq!(output_size(5, 3, 0, 0), None);
    assert_eq!(output_size(2, 5, 1, 1), None);
    assert_eq!(output_size(usize::MAX, 0, 1, 0), None);
}

#[test]
fn pooling_shapes() {
    let max = MaxPool2d::new([2, 2], [2, 2], [0, 0]);
    assert_eq!(max.output_shape(&[4, 16, 28, 28]), Some(vec![4, 16, 14, 14]));
    assert_eq!(max.output_shape(&[16, 28, 28]), None);
    let avg = AvgPool2d::new([3, 3], [1, 1], [1, 1]);
    assert_eq!(avg.output_shape(&[1, 2, 5, 7]), Some(vec![1, 2, 5, 7]));
    assert!(max.parameters().is_empty());
    assert!(avg.named_parameters().is_empty());
}

#[test]
fn adaptive_pool_window() {
    let pool = AdaptiveAvgPool2d::new([1, 1]);
    assert_eq!(pool.window(&[2, 3, 7, 9]), Ok((vec![(0, 7)], vec![(0, 9)])));
    assert_eq!(pool.output_shape(&[2, 3, 7, 9]), Ok(vec![2, 3, 1, 1]));
    // an axis at least as long as the output uses the uniform window:
    // height 10 to 3 has kernel 4 and stride 3, width 5 to 2 kernel 3, stride 2
    let pool = AdaptiveAvgPool2d::new([3, 2]);
    let (rows, cols) = pool.window(&[1, 1, 10, 5]).ok().unwrap();
    assert_eq!(rows, vec![(0, 4), (3, 7), (6, 10)]);
    assert_eq!(cols, vec![(0, 3), (2, 5)]);
    assert_eq!(output_size(10, 4, 3, 0), Some(3));
    assert_eq!(output_size(5, 3, 2, 0), Some(2));
    // an even split gives blocks
    let pool = AdaptiveAvgPool2d::new([2, 3]);
    assert_eq!(pool.window(&[1, 1, 8, 6]), Ok((vec![(0, 4), (4, 8)], vec![(0, 2), (2, 4), (4, 6)])));
    // a shorter input still gives the requested output, over overlapping bins
    let pool = AdaptiveAvgPool2d::new([4, 3]);
    assert_eq!(
        pool.window(&[1, 1, 2, 2]),
        Ok((vec![(0, 1), (0, 1), (1, 2), (1, 2)], vec![(0, 1), (0, 2), (1, 2)]))
    );
    assert_eq!(pool.output_shape(&[5, 7, 2, 2]), Ok(vec![5, 7, 4, 3]));
    assert_eq!(pool.window(&[1, 10, 5]), Err(NnError::WrongRank { expected: 4, got: 3 }));
    assert_eq!(pool.output_shape(&[1, 10, 5]), Err(NnError::WrongRank { expected: 4, got: 3 }));
    assert_eq!(AdaptiveAvgPool2d::new([0, 2]).window(&[1, 1, 4, 4]), Err(NnError::ZeroOutputSize));
    assert_eq!(AdaptiveAvgPool2d::new([2, 0]).output_shape(&[1, 1, 4, 4]), Err(NnError::ZeroOutputSize));
}

#[test]
fn conv1d_shapes() {
    let c = Conv1d::new(4, 6, 3, 2, 1, true);
    assert_eq!(c.output_shape(&[2, 4, 10]), Some(vec![2, 6, 5]));
    assert_eq!(c.parameters(), vec![vec![6, 4, 3], vec![6]]);
    assert_eq!(names(&c.named_parameters()), vec!["weight", "bias"]);
    assert_eq!(c.output_shape(&[2, 5, 10]), None);
}

#[test]
fn flatten_shapes() {
    let f = Flatten::new(1);
    assert_eq!(f.output_shape(&[2, 8, 4, 4]), vec![2, 128]);
    assert_eq!(Flatten::new(0).output_shape(&[2, 8, 4, 4]), vec![256]);
    assert_eq!(Flatten::default_flat().output_shape(&[3, 5]), vec![3, 5]);
    assert_eq!(Flatten::new(4).output_shape(&[2, 8, 4, 4]), vec![2, 8, 4, 4]);
    assert_eq!(Flatten::default().output_shape(&[2, 0, 7]), vec![2, 0]);
    assert!(f.parameters().is_empty());
}

#[test]
fn activations_have_no_parameters() {
    assert!(ReLU.parameters().is_empty());
    assert!(GeLU.named_parameters().is_empty());
    assert!(SiLU.parameters().is_empty());
    assert!(Sigmoid.parameters().is_empty());
    assert!(Tanh.parameters().is_empty());
    assert_eq!(Mish.num_parameters(), 0);
    assert!(ReLU.is_training());
}

#[test]
fn embedding_shapes() {
    let e = Embedding::new(1000, 128);
    assert_eq!(e.output_shape(&[2, 5]), vec![2, 5, 128]);
    assert_eq!(e.weight(), &vec![1000, 128]);
    assert_eq!((e.num_embeddings(), e.embedding_dim()), (1000, 128));
    assert_eq!(e.num_parameters(), 128_000);
    let f = Embedding::from_tensor(vec![10, 4]).ok().unwrap();
    assert_eq!(f.embedding_dim(), 4);
    assert_eq!(Embedding::from_tensor(vec![10]).err(), Some(NnError::WrongRank { expected: 2, got: 1 }));
}

#[test]
fn normalization_checks() {
    let ln = LayerNorm::new(512);
    assert_eq!(ln.normalized_size(), 512);
    assert_eq!(ln.check_input(&[2, 10, 512]), Ok(2));
    assert_eq!(ln.check_input(&[]), Err(NnError::RankTooLow { min: 1, got: 0 }));
    assert_eq!(ln.parameters(), vec![vec![512], vec![512]]);
    let lf = LayerNorm::from_tensors(vec![2, 3], vec![6]);
    assert_eq!(lf.normalized_size(), 6);
    let rms = RMSNorm::new(64);
    assert_eq!(rms.parameters(), vec![vec![64]]);
    assert_eq!(rms.check_input(&[7]), Ok(0));
    assert_eq!(rms.check_input(&[]), Err(NnError::RankTooLow { min: 1, got: 0 }));
}

#[test]
fn batchnorm_modes_and_checks() {
    let mut bn = BatchNorm2d::new(16);
    assert!(bn.is_training());
    bn.eval();
    assert!(!bn.is_training());
    bn.train();
    assert!(bn.is_training());
    Module::set_training(&mut bn, false);
    assert!(!Module::is_training(&bn));
    assert_eq!(bn.num_features(), 16);
    assert_eq!(bn.check_input(&[8, 16, 4, 4]), Ok((8, 16, 4, 4)));
    assert_eq!(bn.check_input(&[8, 16, 4]), Err(NnError::WrongRank { expected: 4, got: 3 }));
    assert_eq!(
        bn.check_input(&[8, 3, 4, 4]),
        Err(NnError::ChannelMismatch { expected: 16, got: 3 })
    );
    let from = BatchNorm2d::from_tensors(vec![4, 2], vec![8]);
    assert_eq!(from.num_features(), 8);
    assert_eq!(from.bias(), &vec![8]);
}

#[test]
fn groupnorm_shapes_and_errors() {
    let gn = GroupNorm::new(8, 32).ok().unwrap();
    assert_eq!((gn.num_groups(), gn.num_channels()), (8, 32));
    let (grouped, affine) = gn.forward_shapes(&[2, 32, 16, 16]).ok().unwrap();
    assert_eq!(grouped, vec![2, 8, 4 * 256]);
    assert_eq!(affine, vec![1, 32, 1, 1]);
    assert_eq!(gn.forward_shapes(&[2]).err(), Some(NnError::RankTooLow { min: 2, got: 1 }));
    assert_eq!(
        gn.forward_shapes(&[2, 16, 3]).err(),
        Some(NnError::ChannelMismatch { expected: 32, got: 16 })
    );
    assert_eq!(GroupNorm::new(3, 32).err(), Some(NnError::NotDivisible { size: 32, divisor: 3 }));
    assert_eq!(GroupNorm::new(0, 4).err(), Some(NnError::NotDivisible { size: 4, divisor: 0 }));
    assert_eq!(gn.parameters(), vec![vec![32], vec![32]]);
}

#[test]
fn attention_sizes_and_mask() {
    let attn = MultiHeadAttention::new(512, 8).ok().unwrap();
    assert_eq!((attn.num_heads(), attn.d_model(), attn.head_dim()), (8, 512, 64));
    assert_eq!(attn.heads_shape(2, 10), vec![2, 8, 10, 64]);
    assert_eq!(attn.check_input(&[2, 10, 512]), Ok((2, 10)));
    assert_eq!(attn.check_input(&[10, 512]), Err(NnError::WrongRank { expected: 3, got: 2 }));
    assert_eq!(
        MultiHeadAttention::new(10, 3).err(),
        Some(NnError::NotDivisible { size: 10, divisor: 3 })
    );
    let mask = attn.causal_mask(3);
    assert_eq!(mask, vec![false, true, true, false, false, true, false, false, false]);
    assert_eq!(attn.num_parameters(), 4 * 512 * 512);
    assert_eq!(
        names(&attn.named_parameters()),
        vec!["w_q.weight", "w_k.weight", "w_v.weight", "w_o.weight"]
    );
    let causal = attn.with_causal(true);
    assert_eq!(causal.head_dim(), 64);
}

#[test]
fn transformer_parameters() {
    let block = TransformerBlock::new(8, 2, 32, true).ok().unwrap();
    assert_eq!(block.d_model(), 8);
    assert_eq!(
        names(&block.named_parameters()),
        vec![
            "ln1.weight",
            "ln1.bias",
            "attn.w_q.weight",
            "attn.w_k.weight",
            "attn.w_v.weight",
            "attn.w_o.weight",
            "ln2.weight",
            "ln2.bias",
            "ff1.weight",
            "ff1.bias",
            "ff2.weight",
            "ff2.bias",
        ]
    );
    assert_eq!(block.num_parameters(), 8 + 8 + 4 * 64 + 8 + 8 + 32 * 8 + 32 + 8 * 32 + 8);
    assert_eq!(block.check_input(&[1, 4, 8]), Ok((1, 4)));
    assert_eq!(TransformerBlock::new(6, 4, 8, false).err(), Some(NnError::NotDivisible { size: 6, divisor: 4 }));
}

#[test]
fn recurrent_parameters() {
    let rnn = RNNCell::new(10, 20, true);
    assert_eq!(rnn.parameters(), vec![vec![20, 10], vec![20, 20], vec![1, 20], vec![1, 20]]);
    let lstm = LSTMCell::new(10, 20, true);
    assert_eq!(lstm.parameters(), vec![vec![80, 10], vec![80, 20], vec![1, 80], vec![1, 80]]);
    let gru = GRUCell::new(10, 20, false);
    assert_eq!(gru.parameters(), vec![vec![60, 10], vec![60, 20]]);
    assert_eq!(names(&gru.named_parameters()), vec!["w_ih", "w_hh"]);
    assert_eq!((lstm.input_size, lstm.hidden_size), (10, 20));
    let layer = LSTM::new(3, 5, true);
    assert_eq!(names(&layer.named_parameters()), vec!["cell.w_ih", "cell.w_hh", "cell.b_ih", "cell.b_hh"]);
    assert_eq!(layer.cell().hidden_size, 5);
    let r = RNN::new(3, 4, false);
    assert_eq!(r.parameters(), vec![vec![4, 3], vec![4, 4]]);
    let g = GRU::new(3, 4, true);
    assert_eq!(g.cell().input_size, 3);
    assert_eq!(g.parameters()[0], vec![12, 3]);
}

#[test]
fn sequential_parameters() {
    let model = Sequential::new()
        .add(Linear::new(4, 3, true))
        .add(ReLU)
        .add(Linear::new(3, 2, false));
    assert_eq!(model.len(), 3);
    assert!(!model.is_empty());
    assert_eq!(model.parameters(), vec![vec![3, 4], vec![1, 3], vec![2, 3]]);
    assert_eq!(
        names(&model.named_parameters()),
        vec!["layers.0.weight", "layers.0.bias", "layers.2.weight"]
    );
    assert_eq!(model.num_parameters(), 12 + 3 + 6);
    assert!(Sequential::default().is_empty());
}

#[test]
fn sequential_propagates_training_mode() {
    let mut model = Sequential::new().add(BatchNorm2d::new(2)).add(ReLU);
    model.eval();
    assert_eq!(model.len(), 2);
    assert!(model.is_training());
    assert_eq!(model.state_dict().len(), 2);
}

#[test]
fn recurrent_output_shapes() {
    let r = RNN::new(3, 4, false);
    assert_eq!(r.output_shapes(&[2, 5, 3]), Some((vec![2, 5, 4], vec![2, 4])));
    assert_eq!(r.output_shapes(&[2, 5, 2]), None);
    assert_eq!(r.output_shapes(&[2, 0, 3]), None);
    let l = LSTM::new(6, 8, true);
    assert_eq!(l.output_shapes(&[1, 7, 6]), Some((vec![1, 7, 8], vec![1, 8])));
    let g = GRU::new(6, 8, true);
    assert_eq!(g.output_shapes(&[4, 1, 6]), Some((vec![4, 1, 8], vec![4, 8])));
    assert_eq!(g.output_shapes(&[4, 6]), None);
}

#[test]
fn positional_parameter_names() {
    let named = shrew_nn::module::name_by_position(vec![vec![2, 3], vec![4], vec![]]);
    assert_eq!(names(&named), vec!["param_0", "param_1", "param_2"]);
    assert_eq!(named[0].1, vec![2, 3]);
    assert_eq!(named[1].1, vec![4]);
    assert!(named[2].1.is_empty());
    assert!(shrew_nn::module::name_by_position(vec![]).is_empty());
}

#[test]
fn named_parameters_follow_parameters() {
    let block = TransformerBlock::new(8, 2, 32, true).ok().unwrap();
    let shapes: Vec<Vec<usize>> = block.named_parameters().into_iter().map(|(_, s)| s).collect();
    assert_eq!(shapes, block.parameters());
    let lstm = LSTMCell::new(3, 5, true);
    let shapes: Vec<Vec<usize>> = lstm.named_parameters().into_iter().map(|(_, s)| s).collect();
    assert_eq!(shapes, lstm.parameters());
}

#[test]
fn layers_without_mode_always_train() {
    let mut relu = ReLU;
    Module::set_training(&mut relu, false);
    assert!(relu.is_training());
    let mut bn = BatchNorm2d::new(4);
    Module::set_training(&mut bn, false);
    assert!(!Module::is_training(&bn));
    Module::set_training(&mut bn, true);
    assert!(Module::is_training(&bn));
}
