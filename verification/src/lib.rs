use vstd::prelude::*;

pub mod chat;
pub mod config;
pub mod kvcache;
pub mod model;
pub mod params;
pub mod sampling;
pub mod tensor;

verus! {

/// The ways this library's operations fail. Kernel shape preconditions are
/// contracts here, so the first two kinds are reported by callers that
/// check inputs at the boundary; the last three arise while binding a
/// serialized tensor archive to the parameter layout.
#[derive(Clone, Copy, Debug, PartialEq, Eq, Structural)]
pub enum LlamaError {
    ShapeMismatch,
    IndexOutOfRange,
    MissingParameter,
    MalformedTensor,
    UnsupportedDtype,
}

/// Number of elements a tensor of the given shape holds: the product of its
/// dimensions (the empty shape describes a scalar, one element).
pub open spec fn shape_product(shape: Seq<usize>) -> nat
    decreases shape.len(),
{
    if shape.len() == 0 {
        1
    } else {
        (shape[0] as nat) * shape_product(shape.skip(1))
    }
}

/// A shape of one dimension holds as many elements as that dimension says.
pub proof fn lemma_shape_product_singleton(x: usize)
    ensures
        shape_product(seq![x]) == x,
{
    assert(seq![x].skip(1) =~= Seq::<usize>::empty());
    assert(shape_product(Seq::<usize>::empty()) == 1);
    assert(seq![x].len() == 1);
    assert(seq![x][0] == x);
    assert(shape_product(seq![x]) == (x as nat) * shape_product(seq![x].skip(1)));
}

/// The element count of a shape splits at any cut point into the product of
/// the two halves.
pub proof fn lemma_shape_product_split(s: Seq<usize>, i: int)
    requires
        0 <= i <= s.len(),
    ensures
        shape_product(s) == shape_product(s.take(i)) * shape_product(s.skip(i)),
    decreases i,
{
    if i == 0 {
        assert(s.take(0) =~= Seq::<usize>::empty());
        assert(s.skip(0) =~= s);
        assert(shape_product(Seq::<usize>::empty()) == 1);
    } else {
        lemma_shape_product_split(s.skip(1), i - 1);
        assert(s.take(i).skip(1) =~= s.skip(1).take(i - 1));
        assert(s.skip(i) =~= s.skip(1).skip(i - 1));
        assert(s.take(i)[0] == s[0]);
        let a = s[0] as int;
        let b = shape_product(s.skip(1).take(i - 1)) as int;
        let c = shape_product(s.skip(1).skip(i - 1)) as int;
        assert(shape_product(s.skip(1)) == b * c);
        assert(shape_product(s) == a * (b * c));
        assert(shape_product(s.take(i)) == a * b);
        assert(a * (b * c) == (a * b) * c) by (nonlinear_arith);
    }
}

/// Extending a shape by one trailing dimension multiplies the element count
/// by that dimension.
pub proof fn lemma_shape_product_step(s: Seq<usize>, k: int)
    requires
        0 <= k < s.len(),
    ensures
        shape_product(s.take(k + 1)) == shape_product(s.take(k)) * (s[k] as nat),
{
    lemma_shape_product_split(s.take(k + 1), k);
    assert(s.take(k + 1).take(k) =~= s.take(k));
    assert(s.take(k + 1).skip(k) =~= seq![s[k]]);
    lemma_shape_product_singleton(s[k]);
}

/// A shape with a zero dimension holds no elements.
pub proof fn lemma_shape_product_zero(s: Seq<usize>, i: int)
    requires
        0 <= i < s.len(),
        s[i] == 0,
    ensures
        shape_product(s) == 0,
    decreases s.len(),
{
    if i == 0 {
        assert((0 as nat) * shape_product(s.skip(1)) == 0) by (nonlinear_arith);
    } else {
        lemma_shape_product_zero(s.skip(1), i - 1);
        assert((s[0] as nat) * 0 == 0) by (nonlinear_arith);
    }
}

/// A shape whose dimensions are all positive holds at least one element.
pub proof fn lemma_shape_product_pos(s: Seq<usize>)
    requires
        forall|j: int| 0 <= j < s.len() ==> s[j] >= 1,
    ensures
        shape_product(s) >= 1,
    decreases s.len(),
{
    if s.len() > 0 {
        assert(forall|j: int| 0 <= j < s.skip(1).len() ==> #[trigger] s.skip(1)[j] == s[j + 1]);
        lemma_shape_product_pos(s.skip(1));
        assert((s[0] as nat) * shape_product(s.skip(1)) >= 1 * 1) by (nonlinear_arith)
            requires
                s[0] >= 1,
                shape_product(s.skip(1)) >= 1,
        ;
    }
}

/// Computes the element count of a shape, or `None` exactly when the product
/// does not fit in `usize`.
pub fn try_product(shape: &Vec<usize>) -> (r: Option<usize>)
    ensures
        r is Some <==> shape_product(shape@) <= usize::MAX,
        r is Some ==> r->0 == shape_product(shape@),
{
    let n: usize = shape.len();
    let mut i: usize = 0;
    while i < n
        invariant
            0 <= i <= n,
            n == shape@.len(),
            forall|j: int| 0 <= j < i ==> shape@[j] >= 1,
        decreases n - i,
    {
        if shape[i] == 0 {
            proof {
                lemma_shape_product_zero(shape@, i as int);
            }
            return Some(0);
        }
        i = i + 1;
    }
    let mut acc: usize = 1;
    let mut k: usize = 0;
    while k < n
        invariant
            0 <= k <= n,
            n == shape@.len(),
            forall|j: int| 0 <= j < n ==> shape@[j] >= 1,
            acc == shape_product(shape@.take(k as int)),
            acc >= 1,
        decreases n - k,
    {
        let ghost rest: nat = shape_product(shape@.skip(k as int + 1));
        proof {
            lemma_shape_product_step(shape@, k as int);
            lemma_shape_product_split(shape@, k as int + 1);
            assert forall|j: int| 0 <= j < shape@.skip(k as int + 1).len()
                implies #[trigger] shape@.skip(k as int + 1)[j] >= 1 by {
                assert(shape@.skip(k as int + 1)[j] == shape@[j + k + 1]);
            }
            lemma_shape_product_pos(shape@.skip(k as int + 1));
        }
        let next = acc.checked_mul(shape[k]);
        match next {
            Some(v) => {
                proof {
                    assert(v >= 1) by (nonlinear_arith)
                        requires
                            v == acc * (shape@[k as int] as int),
                            acc >= 1,
                            shape@[k as int] >= 1,
                    ;
                }
                acc = v;
            },
            None => {
                proof {
                    let prod: int = acc * (shape@[k as int] as int);
                    assert(prod * rest >= prod * 1) by (nonlinear_arith)
                        requires
                            rest >= 1,
                            prod >= 0,
                    ;
                    assert(shape_product(shape@) == shape_product(shape@.take(k as int + 1)) * rest);
                    assert(shape_product(shape@) > usize::MAX);
                }
                return None;
            },
        }
        k = k + 1;
    }
    proof {
        assert(shape@.take(n as int) =~= shape@);
    }
    Some(acc)
}

} // verus!
