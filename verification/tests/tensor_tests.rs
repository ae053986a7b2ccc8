use llama_infer::tensor::Tensor;

#[test]
fn tensor_new_size_shape() {
    let t = Tensor::<f32>::new(vec![1.0, 2.0, 3.0, 4.0, 5.0, 6.0], vec![2, 3]);
    assert_eq!(t.size(), 6);
    assert_eq!(t.shape(), &vec![2, 3]);
    assert_eq!(*t.get(0), 1.0);
    assert_eq!(*t.get(5), 6.0);
    assert_eq!(t.data(), &[1.0, 2.0, 3.0, 4.0, 5.0, 6.0]);
}

#[test]
fn tensor_scalar_shape() {
    let t = Tensor::<u32>::new(vec![7], vec![]);
    assert_eq!(t.size(), 1);
    assert_eq!(*t.get(0), 7);
}

#[test]
fn tensor_slice_views_subrange() {
    let t = Tensor::<f32>::new(vec![1.0, 2.0, 3.0, 4.0, 5.0, 6.0], vec![2, 3]);
    let s = t.slice(2, vec![2, 2]);
    assert_eq!(s.size(), 4);
    assert_eq!(s.shape(), &vec![2, 2]);
    assert_eq!(s.data(), &[3.0, 4.0, 5.0, 6.0]);
    let ss = s.slice(1, vec![2]);
    assert_eq!(ss.data(), &[4.0, 5.0]);
}

#[test]
fn tensor_reshape_keeps_data() {
    let t = Tensor::<f32>::new(vec![1.0, 2.0, 3.0, 4.0], vec![2, 2]);
    let r = t.reshape(vec![4]);
    assert_eq!(r.shape(), &vec![4]);
    assert_eq!(r.data(), t.data());
}

#[test]
fn tensor_share_same_contents() {
    let t = Tensor::<f32>::new(vec![1.5, 2.5], vec![2]);
    let u = t.share();
    assert_eq!(u.data(), t.data());
    assert_eq!(u.shape(), t.shape());
}

#[test]
fn tensor_to_vec_detaches() {
    let t = Tensor::<u32>::new(vec![10, 20, 30], vec![3]);
    let v = t.to_vec();
    assert_eq!(v, vec![10, 20, 30]);
}
