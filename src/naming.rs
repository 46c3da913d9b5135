//! Facts about the names the builder gives: operator tags and decimal numbers, and why
//! names made of them never collide.

use vstd::prelude::*;
use crate::ir::{decimal, digit_chars, node_type_index, node_type_tag, NodeType};

verus! {

/// A decimal digit.
pub open spec fn is_digit(c: char) -> bool {
    '0' <= c && c <= '9'
}

/// The position of an operator tag in the declaration order, read from its length and
/// a few of its characters.
pub open spec fn tag_position(s: Seq<char>) -> int {
    if s.len() < 3 {
        -1
    } else if s.len() == 3 && s[0] == 'a' && s[1] == 'b' && s[2] == 's' && s[s.len() - 2] == 'b' {
        0
    } else if s.len() == 3 && s[0] == 'a' && s[1] == 'd' && s[2] == 'd' && s[s.len() - 2] == 'd' {
        1
    } else if s.len() == 13 && s[0] == 'a' && s[1] == 'v' && s[2] == 'e' && s[s.len() - 2] == '2' {
        2
    } else if s.len() == 18 && s[0] == 'b' && s[1] == 'a' && s[2] == 't' && s[s.len() - 2] == 'o' {
        3
    } else if s.len() == 4 && s[0] == 'c' && s[1] == 'a' && s[2] == 's' && s[s.len() - 2] == 's' {
        4
    } else if s.len() == 4 && s[0] == 'c' && s[1] == 'l' && s[2] == 'i' && s[s.len() - 2] == 'i' {
        5
    } else if s.len() == 6 && s[0] == 'c' && s[1] == 'o' && s[2] == 'n' && s[s.len() - 2] == 'a' {
        6
    } else if s.len() == 8 && s[0] == 'c' && s[1] == 'o' && s[2] == 'n' && s[s.len() - 2] == 'n' {
        7
    } else if s.len() == 6 && s[0] == 'c' && s[1] == 'o' && s[2] == 'n' && s[s.len() - 2] == '1' {
        8
    } else if s.len() == 6 && s[0] == 'c' && s[1] == 'o' && s[2] == 'n' && s[s.len() - 2] == '2' {
        9
    } else if s.len() == 3 && s[0] == 'c' && s[1] == 'o' && s[2] == 's' && s[s.len() - 2] == 'o' {
        10
    } else if s.len() == 3 && s[0] == 'd' && s[1] == 'i' && s[2] == 'v' && s[s.len() - 2] == 'i' {
        11
    } else if s.len() == 7 && s[0] == 'd' && s[1] == 'r' && s[2] == 'o' && s[s.len() - 2] == 'u' {
        12
    } else if s.len() == 5 && s[0] == 'e' && s[1] == 'q' && s[2] == 'u' && s[s.len() - 2] == 'a' {
        13
    } else if s.len() == 3 && s[0] == 'e' && s[1] == 'r' && s[2] == 'f' && s[s.len() - 2] == 'r' {
        14
    } else if s.len() == 3 && s[0] == 'e' && s[1] == 'x' && s[2] == 'p' && s[s.len() - 2] == 'x' {
        15
    } else if s.len() == 7 && s[0] == 'f' && s[1] == 'l' && s[2] == 'a' && s[s.len() - 2] == 'e' {
        16
    } else if s.len() == 6 && s[0] == 'g' && s[1] == 'a' && s[2] == 't' && s[s.len() - 2] == 'e' {
        17
    } else if s.len() == 4 && s[0] == 'g' && s[1] == 'e' && s[2] == 'l' && s[s.len() - 2] == 'l' {
        18
    } else if s.len() == 4 && s[0] == 'g' && s[1] == 'e' && s[2] == 'm' && s[s.len() - 2] == 'm' {
        19
    } else if s.len() == 17 && s[0] == 'g' && s[1] == 'l' && s[2] == 'o' && s[s.len() - 2] == 'o' {
        20
    } else if s.len() == 8 && s[0] == 'i' && s[1] == 'd' && s[2] == 'e' && s[s.len() - 2] == 't' {
        21
    } else if s.len() == 18 && s[0] == 'l' && s[1] == 'a' && s[2] == 'y' && s[s.len() - 2] == 'o' {
        22
    } else if s.len() == 6 && s[0] == 'l' && s[1] == 'i' && s[2] == 'n' && s[s.len() - 2] == 'a' {
        23
    } else if s.len() == 3 && s[0] == 'l' && s[1] == 'o' && s[2] == 'g' && s[s.len() - 2] == 'o' {
        24
    } else if s.len() == 10 && s[0] == 'l' && s[1] == 'o' && s[2] == 'g' && s[s.len() - 2] == 'a' {
        25
    } else if s.len() == 6 && s[0] == 'm' && s[1] == 'a' && s[2] == 't' && s[s.len() - 2] == 'u' {
        26
    } else if s.len() == 9 && s[0] == 'm' && s[1] == 'a' && s[2] == 'x' && s[s.len() - 2] == '2' {
        27
    } else if s.len() == 3 && s[0] == 'm' && s[1] == 'u' && s[2] == 'l' && s[s.len() - 2] == 'u' {
        28
    } else if s.len() == 3 && s[0] == 'n' && s[1] == 'e' && s[2] == 'g' && s[s.len() - 2] == 'e' {
        29
    } else if s.len() == 10 && s[0] == 'r' && s[1] == 'e' && s[2] == 'c' && s[s.len() - 2] == 'a' {
        30
    } else if s.len() == 10 && s[0] == 'r' && s[1] == 'e' && s[2] == 'd' && s[s.len() - 2] == 'a' {
        31
    } else if s.len() == 4 && s[0] == 'r' && s[1] == 'e' && s[2] == 'l' && s[s.len() - 2] == 'l' {
        32
    } else if s.len() == 7 && s[0] == 'r' && s[1] == 'e' && s[2] == 's' && s[s.len() - 2] == 'p' {
        33
    } else if s.len() == 7 && s[0] == 's' && s[1] == 'i' && s[2] == 'g' && s[s.len() - 2] == 'i' {
        34
    } else if s.len() == 7 && s[0] == 's' && s[1] == 'o' && s[2] == 'f' && s[s.len() - 2] == 'a' {
        35
    } else if s.len() == 4 && s[0] == 's' && s[1] == 'q' && s[2] == 'r' && s[s.len() - 2] == 'r' {
        36
    } else if s.len() == 3 && s[0] == 's' && s[1] == 'u' && s[2] == 'b' && s[s.len() - 2] == 'u' {
        37
    } else if s.len() == 3 && s[0] == 's' && s[1] == 'u' && s[2] == 'm' && s[s.len() - 2] == 'u' {
        38
    } else if s.len() == 4 && s[0] == 't' && s[1] == 'a' && s[2] == 'n' && s[s.len() - 2] == 'n' {
        39
    } else if s.len() == 9 && s[0] == 't' && s[1] == 'r' && s[2] == 'a' && s[s.len() - 2] == 's' {
        40
    } else if s.len() == 9 && s[0] == 'u' && s[1] == 'n' && s[2] == 's' && s[s.len() - 2] == 'z' {
        41
    } else {
        -1
    }
}

/// An operator tag is at least three characters long, ends with a letter, holds no
/// underscore, and tells its kind.
pub proof fn lemma_tag_facts(t: NodeType)
    ensures
        node_type_tag(t).len() >= 3,
        !is_digit(node_type_tag(t).last()),
        forall|i: int| 0 <= i < node_type_tag(t).len() ==> #[trigger] node_type_tag(t)[i] != '_',
        tag_position(node_type_tag(t)) == node_type_index(t),
{
    match t {
        NodeType::Abs => {
            reveal_strlit("abs");
        },
        NodeType::Add => {
            reveal_strlit("add");
        },
        NodeType::AveragePool2d => {
            reveal_strlit("averagepool2d");
        },
        NodeType::BatchNormalization => {
            reveal_strlit("batchnormalization");
        },
        NodeType::Cast => {
            reveal_strlit("cast");
        },
        NodeType::Clip => {
            reveal_strlit("clip");
        },
        NodeType::Concat => {
            reveal_strlit("concat");
        },
        NodeType::Constant => {
            reveal_strlit("constant");
        },
        NodeType::Conv1d => {
            reveal_strlit("conv1d");
        },
        NodeType::Conv2d => {
            reveal_strlit("conv2d");
        },
        NodeType::Cos => {
            reveal_strlit("cos");
        },
        NodeType::Div => {
            reveal_strlit("div");
        },
        NodeType::Dropout => {
            reveal_strlit("dropout");
        },
        NodeType::Equal => {
            reveal_strlit("equal");
        },
        NodeType::Erf => {
            reveal_strlit("erf");
        },
        NodeType::Exp => {
            reveal_strlit("exp");
        },
        NodeType::Flatten => {
            reveal_strlit("flatten");
        },
        NodeType::Gather => {
            reveal_strlit("gather");
        },
        NodeType::Gelu => {
            reveal_strlit("gelu");
        },
        NodeType::Gemm => {
            reveal_strlit("gemm");
        },
        NodeType::GlobalAveragePool => {
            reveal_strlit("globalaveragepool");
        },
        NodeType::Identity => {
            reveal_strlit("identity");
        },
        NodeType::LayerNormalization => {
            reveal_strlit("layernormalization");
        },
        NodeType::Linear => {
            reveal_strlit("linear");
        },
        NodeType::Log => {
            reveal_strlit("log");
        },
        NodeType::LogSoftmax => {
            reveal_strlit("logsoftmax");
        },
        NodeType::MatMul => {
            reveal_strlit("matmul");
        },
        NodeType::MaxPool2d => {
            reveal_strlit("maxpool2d");
        },
        NodeType::Mul => {
            reveal_strlit("mul");
        },
        NodeType::Neg => {
            reveal_strlit("neg");
        },
        NodeType::Reciprocal => {
            reveal_strlit("reciprocal");
        },
        NodeType::ReduceMean => {
            reveal_strlit("reducemean");
        },
        NodeType::Relu => {
            reveal_strlit("relu");
        },
        NodeType::Reshape => {
            reveal_strlit("reshape");
        },
        NodeType::Sigmoid => {
            reveal_strlit("sigmoid");
        },
        NodeType::Softmax => {
            reveal_strlit("softmax");
        },
        NodeType::Sqrt => {
            reveal_strlit("sqrt");
        },
        NodeType::Sub => {
            reveal_strlit("sub");
        },
        NodeType::Sum => {
            reveal_strlit("sum");
        },
        NodeType::Tanh => {
            reveal_strlit("tanh");
        },
        NodeType::Transpose => {
            reveal_strlit("transpose");
        },
        NodeType::Unsqueeze => {
            reveal_strlit("unsqueeze");
        },
    }
}

/// Distinct operator kinds have distinct tags.
pub proof fn lemma_tag_injective(t1: NodeType, t2: NodeType)
    requires
        node_type_tag(t1) == node_type_tag(t2),
    ensures
        t1 == t2,
{
    lemma_tag_facts(t1);
    lemma_tag_facts(t2);
    crate::builder::lemma_node_type_index_inverse(t1);
    crate::builder::lemma_node_type_index_inverse(t2);
}

/// A decimal digit string is one digit long, and tells its digit.
pub proof fn lemma_digit(d: nat)
    requires
        d < 10,
    ensures
        digit_chars(d).len() == 1,
        is_digit(digit_chars(d)[0]),
        forall|e: nat| e < 10 && digit_chars(e) == digit_chars(d) ==> e == d,
{
    reveal_strlit("0");
    reveal_strlit("1");
    reveal_strlit("2");
    reveal_strlit("3");
    reveal_strlit("4");
    reveal_strlit("5");
    reveal_strlit("6");
    reveal_strlit("7");
    reveal_strlit("8");
    reveal_strlit("9");
    assert forall|e: nat| e < 10 && digit_chars(e) == digit_chars(d) implies e == d by {
        assert(digit_chars(e)[0] == digit_chars(d)[0]);
    }
}

/// A decimal representation is non-empty and made of digits only.
pub proof fn lemma_decimal_digits(n: nat)
    ensures
        decimal(n).len() >= 1,
        forall|i: int| 0 <= i < decimal(n).len() ==> is_digit(#[trigger] decimal(n)[i]),
    decreases n,
{
    if n < 10 {
        lemma_digit(n);
    } else {
        lemma_decimal_digits(n / 10);
        lemma_digit(n % 10);
        let p = decimal(n / 10);
        assert forall|i: int| 0 <= i < decimal(n).len() implies is_digit(#[trigger] decimal(n)[i]) by {
            if i < p.len() {
                assert(decimal(n)[i] == p[i]);
            } else {
                assert(decimal(n)[i] == digit_chars(n % 10)[i - p.len()]);
            }
        }
    }
}

/// Distinct numbers have distinct decimal representations.
pub proof fn lemma_decimal_injective(a: nat, b: nat)
    requires
        decimal(a) == decimal(b),
    ensures
        a == b,
    decreases a + b,
{
    if a < 10 && b < 10 {
        lemma_digit(a);
        lemma_digit(b);
    } else if a < 10 {
        lemma_digit(a);
        lemma_decimal_digits(b / 10);
        lemma_digit(b % 10);
    } else if b < 10 {
        lemma_digit(b);
        lemma_decimal_digits(a / 10);
        lemma_digit(a % 10);
    } else {
        lemma_digit(a % 10);
        lemma_digit(b % 10);
        let pa = decimal(a / 10);
        let pb = decimal(b / 10);
        let s = decimal(a);
        assert(pa == s.take(s.len() - 1));
        assert(pb == s.take(s.len() - 1));
        assert(digit_chars(a % 10) == s.skip(s.len() - 1));
        assert(digit_chars(b % 10) == s.skip(s.len() - 1));
        lemma_decimal_injective(a / 10, b / 10);
    }
}

/// A word that ends with a non-digit, followed by a number, splits back into the two.
pub proof fn lemma_split_at_digits(w1: Seq<char>, d1: Seq<char>, w2: Seq<char>, d2: Seq<char>)
    requires
        w1.len() > 0,
        w2.len() > 0,
        !is_digit(w1.last()),
        !is_digit(w2.last()),
        forall|i: int| 0 <= i < d1.len() ==> is_digit(#[trigger] d1[i]),
        forall|i: int| 0 <= i < d2.len() ==> is_digit(#[trigger] d2[i]),
        w1 + d1 == w2 + d2,
    ensures
        w1 == w2,
        d1 == d2,
{
    let s = w1 + d1;
    assert(s.len() == w1.len() + d1.len());
    assert(s.len() == w2.len() + d2.len());
    if w1.len() < w2.len() {
        assert(s[w2.len() - 1] == w2.last());
        assert(s[w2.len() - 1] == d1[w2.len() - 1 - w1.len()]);
    } else if w2.len() < w1.len() {
        assert(s[w1.len() - 1] == w1.last());
        assert((w2 + d2)[w1.len() - 1] == d2[w1.len() - 1 - w2.len()]);
    }
    assert(w1 =~= s.take(w1.len() as int));
    assert(w2 =~= (w2 + d2).take(w2.len() as int));
    assert(d1 =~= s.skip(w1.len() as int));
    assert(d2 =~= (w2 + d2).skip(w2.len() as int));
}

/// A word without underscores, followed by a suffix that starts with one, splits back
/// into the two.
pub proof fn lemma_split_at_underscore(w1: Seq<char>, r1: Seq<char>, w2: Seq<char>, r2: Seq<char>)
    requires
        forall|i: int| 0 <= i < w1.len() ==> #[trigger] w1[i] != '_',
        forall|i: int| 0 <= i < w2.len() ==> #[trigger] w2[i] != '_',
        r1.len() > 0 && r1[0] == '_',
        r2.len() > 0 && r2[0] == '_',
        w1 + r1 == w2 + r2,
    ensures
        w1 == w2,
        r1 == r2,
{
    let s = w1 + r1;
    if w1.len() < w2.len() {
        assert(s[w1.len() as int] == r1[0]);
        assert((w2 + r2)[w1.len() as int] == w2[w1.len() as int]);
    } else if w2.len() < w1.len() {
        assert((w2 + r2)[w2.len() as int] == r2[0]);
        assert(s[w2.len() as int] == w1[w2.len() as int]);
    }
    assert(w1 =~= s.take(w1.len() as int));
    assert(w2 =~= (w2 + r2).take(w2.len() as int));
    assert(r1 =~= s.skip(w1.len() as int));
    assert(r2 =~= (w2 + r2).skip(w2.len() as int));
}

} // verus!
