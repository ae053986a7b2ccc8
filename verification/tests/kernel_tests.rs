use llama_infer::tensor::Tensor;

/// RMS normalization over the last dimension: each row is scaled by the
/// reciprocal of its root mean square (plus epsilon) and multiplied by the
/// learned weights. The engine's numeric kernels run beside this library;
/// this reference pins the values they must reproduce over its tensors.
fn rms_norm_ref(y: &mut [f32], x: &[f32], w: &[f32], epsilon: f32) {
    let d = w.len();
    let rows = x.len() / d;
    for i in 0..rows {
        let base = i * d;
        let mean_square = (0..d).map(|j| x[base + j] * x[base + j]).sum::<f32>() / d as f32;
        let rms = (mean_square + epsilon).sqrt();
        for j in 0..d {
            y[base + j] = w[j] * x[base + j] / rms;
        }
    }
}

#[test]
fn test_rms_norm() {
    let x = Tensor::<f32>::new(vec![1., 2., 3., 4.], vec![2, 2]);
    let w = Tensor::<f32>::new(vec![1., 2.], vec![2]);
    let mut y: Vec<f32> = vec![1., 2., 3., 4.];
    rms_norm_ref(&mut y, x.data(), w.data(), 1e-6);
    let expected = Tensor::<f32>::new(
        vec![0.6324554, 2.5298216, 0.8485281, 2.2627416],
        vec![2, 2],
    );
    let close = y
        .iter()
        .zip(expected.data().iter())
        .all(|(a, b)| (a - b).abs() < 1e-3);
    assert!(close);
}

/// The gated feed-forward activation: `y[i] <- silu(x[i]) * y[i]` with
/// `silu(v) = v / (1 + exp(-v))`.
fn swiglu_ref(y: &mut [f32], x: &[f32]) {
    for i in 0..y.len() {
        let sigmoid = 1.0 / (1.0 + (-x[i]).exp());
        y[i] = sigmoid * x[i] * y[i];
    }
}

#[test]
fn test_silu() {
    let x = Tensor::<f32>::new(vec![1., 2., 3.], vec![1, 3]);
    let mut y: Vec<f32> = vec![2., 3., 4.];
    swiglu_ref(&mut y, x.data());
    let expected = Tensor::<f32>::new(vec![1.4621172, 5.2847824, 11.43089], vec![1, 3]);
    let close = y
        .iter()
        .zip(expected.data().iter())
        .all(|(a, b)| (a - b).abs() < 1e-3);
    assert!(close);
}

/// `c <- beta * c + alpha * a * b^T` with the transposed operand row-major.
fn matmul_transb_ref(c: &mut [f32], beta: f32, a: &[f32], m: usize, k: usize, b: &[f32], alpha: f32) {
    let n = b.len() / k;
    for i in 0..m {
        for j in 0..n {
            let mut dot = 0.0f32;
            for kk in 0..k {
                dot += a[i * k + kk] * b[j * k + kk];
            }
            c[i * n + j] = beta * c[i * n + j] + alpha * dot;
        }
    }
}

#[test]
fn test_matmul_transb() {
    let a = Tensor::<f32>::new(vec![1., 2., 3., 4., 5., 6.], vec![2, 3]);
    let b = Tensor::<f32>::new(vec![1., 2., 3., 4., 5., 6.], vec![2, 3]);
    let mut c: Vec<f32> = vec![1., 2., 3., 4.];
    matmul_transb_ref(&mut c, 1., a.data(), 2, 3, b.data(), 1.);
    let expected = Tensor::<f32>::new(vec![15., 34., 35., 81.], vec![2, 2]);
    let close = c
        .iter()
        .zip(expected.data().iter())
        .all(|(x, y)| (x - y).abs() < 1e-3);
    assert!(close);
}
