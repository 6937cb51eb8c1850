//! Named reductions over byte sequences and their lookup by name.

use vstd::prelude::*;
use vstd::arithmetic::div_mod::{lemma_add_mod_noop, lemma_mul_mod_noop, lemma_small_mod};
use crate::neural::traits::Combinator;
use crate::neural::reduction::{
    and_reduce, ascending, average, lemma_ascending_unique, lemma_average_in_range,
    lemma_occurrences_empty, lemma_occurrences_push, occurrences,
    lemma_product_nonnegative, lemma_sum_bounds, maximum, median, minimum, or_reduce, product,
    sum, wrapped_product, wrapped_sum, xor_reduce,
};

verus! {

broadcast use vstd::string::to_string_from_display_ensures_for_str;

/// The reductions that can be looked up by name.
pub enum CombinatorKind {
    Addition,
    Multiplication,
    Max,
    Min,
    Average,
    Median,
    Or,
    And,
    Xor,
    Nand,
    Nor,
    Xnor,
}

impl CombinatorKind {
    /// The canonical name of the reduction.
    pub open spec fn identifier(self) -> Seq<char> {
        match self {
            CombinatorKind::Addition => "addition"@,
            CombinatorKind::Multiplication => "multiply"@,
            CombinatorKind::Max => "max"@,
            CombinatorKind::Min => "min"@,
            CombinatorKind::Average => "average"@,
            CombinatorKind::Median => "median"@,
            CombinatorKind::Or => "or"@,
            CombinatorKind::And => "and"@,
            CombinatorKind::Xor => "xor"@,
            CombinatorKind::Nand => "nand"@,
            CombinatorKind::Nor => "nor"@,
            CombinatorKind::Xnor => "xnor"@,
        }
    }

    /// The byte that the reduction yields on `inputs`.
    pub open spec fn combine(self, inputs: Seq<u8>) -> u8 {
        match self {
            CombinatorKind::Addition => wrapped_sum(inputs),
            CombinatorKind::Multiplication => wrapped_product(inputs),
            CombinatorKind::Max => maximum(inputs),
            CombinatorKind::Min => minimum(inputs),
            CombinatorKind::Average => average(inputs),
            CombinatorKind::Median => median(inputs),
            CombinatorKind::Or => or_reduce(inputs),
            CombinatorKind::And => and_reduce(inputs),
            CombinatorKind::Xor => xor_reduce(inputs),
            CombinatorKind::Nand => !and_reduce(inputs),
            CombinatorKind::Nor => !or_reduce(inputs),
            CombinatorKind::Xnor => !xor_reduce(inputs),
        }
    }
}

/// The reduction that a lower-case name stands for: its canonical name or
/// one of its aliases. No other name stands for a reduction.
pub open spec fn kind_of_name(lowered: Seq<char>) -> Option<CombinatorKind> {
    if lowered == "addition"@ || lowered == "add"@ || lowered == "+"@ {
        Some(CombinatorKind::Addition)
    } else if lowered == "multiply"@ || lowered == "multiplication"@ || lowered == "*"@ {
        Some(CombinatorKind::Multiplication)
    } else if lowered == "max"@ {
        Some(CombinatorKind::Max)
    } else if lowered == "min"@ {
        Some(CombinatorKind::Min)
    } else if lowered == "average"@ || lowered == "avg"@ {
        Some(CombinatorKind::Average)
    } else if lowered == "median"@ {
        Some(CombinatorKind::Median)
    } else if lowered == "or"@ {
        Some(CombinatorKind::Or)
    } else if lowered == "and"@ {
        Some(CombinatorKind::And)
    } else if lowered == "xor"@ {
        Some(CombinatorKind::Xor)
    } else if lowered == "nand"@ {
        Some(CombinatorKind::Nand)
    } else if lowered == "nor"@ {
        Some(CombinatorKind::Nor)
    } else if lowered == "xnor"@ {
        Some(CombinatorKind::Xnor)
    } else {
        None
    }
}

/// Looking up the canonical name of a reduction yields that reduction: the
/// canonical names are distinct from one another and from every alias of
/// another reduction.
pub proof fn lemma_identifier_round_trip(kind: CombinatorKind)
    ensures
        kind_of_name(kind.identifier()) == Some(kind),
{
    reveal_strlit("addition");
    reveal_strlit("add");
    reveal_strlit("+");
    reveal_strlit("multiply");
    reveal_strlit("multiplication");
    reveal_strlit("*");
    reveal_strlit("max");
    reveal_strlit("min");
    reveal_strlit("average");
    reveal_strlit("avg");
    reveal_strlit("median");
    reveal_strlit("or");
    reveal_strlit("and");
    reveal_strlit("xor");
    reveal_strlit("nand");
    reveal_strlit("nor");
    reveal_strlit("xnor");
    // Names of different lengths differ; those of one length differ in
    // their first or second character.
    assert("+"@.len() == 1 && "*"@.len() == 1 && "or"@.len() == 2);
    assert("add"@.len() == 3 && "add"@[0] == 'a' && "add"@[1] == 'd');
    assert("avg"@.len() == 3 && "avg"@[0] == 'a' && "avg"@[1] == 'v');
    assert("and"@.len() == 3 && "and"@[0] == 'a' && "and"@[1] == 'n');
    assert("max"@.len() == 3 && "max"@[0] == 'm' && "max"@[1] == 'a');
    assert("min"@.len() == 3 && "min"@[0] == 'm' && "min"@[1] == 'i');
    assert("xor"@.len() == 3 && "xor"@[0] == 'x');
    assert("nor"@.len() == 3 && "nor"@[0] == 'n');
    assert("nand"@.len() == 4 && "nand"@[0] == 'n');
    assert("xnor"@.len() == 4 && "xnor"@[0] == 'x');
    assert("median"@.len() == 6 && "average"@.len() == 7);
    assert("addition"@.len() == 8 && "addition"@[0] == 'a');
    assert("multiply"@.len() == 8 && "multiply"@[0] == 'm');
    assert("multiplication"@.len() == 14);
}

/// Whether `found` is what a lookup owes for `kind`: nothing where there is
/// no kind, else a combinator with that kind's name and that kind's result on
/// every input.
pub open spec fn resolves_to(
    found: Option<Box<dyn Combinator>>,
    kind: Option<CombinatorKind>,
) -> bool {
    match kind {
        None => found is None,
        Some(k) => {
            &&& found is Some
            &&& found->0.spec_identifier() == k.identifier()
            &&& forall|inputs: Seq<u8>| #[trigger]
                found->0.spec_combine(inputs) == k.combine(inputs)
        },
    }
}

/// The lower-case form of a string, as `str::to_lowercase` computes it.
pub uninterp spec fn lowercase_of(s: Seq<char>) -> Seq<char>;

/// Calls `str::to_lowercase`. The contract claims that the result depends on
/// the characters of `name` alone: it gives the result the name
/// `lowercase_of` and says no more of it.
#[verifier::external_body]
fn to_lowercase(name: &str) -> (lowered: String)
    ensures
        lowered@ == lowercase_of(name@),
{
    name.to_lowercase()
}

/// Counts how often each byte value occurs in `inputs`.
fn histogram(inputs: &[u8]) -> (counts: [usize; 256])
    ensures
        forall|v: u8| #[trigger] counts@[v as int] == occurrences(inputs@, v),
{
    let mut counts: [usize; 256] = [0usize;256];
    proof {
        assert(inputs@.take(0) =~= Seq::<u8>::empty());
        assert forall|v: u8| #[trigger] counts@[v as int] == occurrences(inputs@.take(0), v) by {
            lemma_occurrences_empty(v);
        }
    }
    for i in 0..inputs.len()
        invariant
            forall|v: u8| #[trigger] counts@[v as int] == occurrences(inputs@.take(i as int), v),
            forall|v: u8| #[trigger] counts@[v as int] <= i,
    {
        let b: u8 = inputs[i];
        proof {
            assert(inputs@.take(i + 1) =~= inputs@.take(i as int).push(b));
            assert forall|v: u8|
                occurrences(inputs@.take(i + 1), v) == occurrences(inputs@.take(i as int), v)
                    + if v == b {
                    1nat
                } else {
                    0nat
                } by {
                lemma_occurrences_push(inputs@.take(i as int), b, v);
            }
        }
        counts[b as usize] = counts[b as usize] + 1;
    }
    assert(inputs@.take(inputs@.len() as int) == inputs@);
    counts
}

/// Returns the bytes of `inputs` in ascending order, by counting how often
/// each value occurs and writing each value out that often.
fn sorted_copy(inputs: &[u8]) -> (sorted: Vec<u8>)
    ensures
        sorted@ == ascending(inputs@),
{
    let counts: [usize; 256] = histogram(inputs);
    let mut sorted: Vec<u8> = Vec::new();
    proof {
        assert(sorted@ =~= Seq::<u8>::empty());
        assert forall|v: u8| #[trigger] occurrences(sorted@, v) == 0 by {
            lemma_occurrences_empty(v);
        }
    }
    for value in 0..256usize
        invariant
            forall|i: int, j: int| 0 <= i < j < sorted@.len() ==> sorted@[i] <= sorted@[j],
            forall|i: int| 0 <= i < sorted@.len() ==> sorted@[i] < value,
            forall|v: u8|
                #[trigger] occurrences(sorted@, v) == if v < value {
                    counts@[v as int]
                } else {
                    0
                },
    {
        let times: usize = counts[value];
        for written in 0..times
            invariant
                value < 256,
                times == counts@[value as int],
                forall|i: int, j: int| 0 <= i < j < sorted@.len() ==> sorted@[i] <= sorted@[j],
                forall|i: int| 0 <= i < sorted@.len() ==> sorted@[i] <= value,
                forall|v: u8|
                    #[trigger] occurrences(sorted@, v) == if v < value {
                        counts@[v as int]
                    } else if v == value {
                        written
                    } else {
                        0
                    },
        {
            let ghost before = sorted@;
            sorted.push(value as u8);
            proof {
                assert forall|v: u8|
                    occurrences(sorted@, v) == occurrences(before, v) + if v == value {
                        1nat
                    } else {
                        0nat
                    } by {
                    lemma_occurrences_push(before, value as u8, v);
                }
            }
        }
    }
    proof {
        assert(sorted@.to_multiset() =~= inputs@.to_multiset()) by {
            assert forall|v: u8|
                sorted@.to_multiset().count(v) == inputs@.to_multiset().count(v) by {
                assert(occurrences(sorted@, v) == counts@[v as int]);
            }
        }
        lemma_ascending_unique(inputs@, sorted@);
    }
    sorted
}

/// Whether two strings hold the same characters.
fn same_text(a: &str, b: &str) -> (same: bool)
    ensures
        same == (a@ == b@),
{
    a.to_string() == b.to_string()
}

/// Folds the inputs with bitwise OR, starting from 0.
fn fold_or(inputs: &[u8]) -> (out: u8)
    ensures
        out == or_reduce(inputs@),
{
    let mut acc: u8 = 0;
    for i in 0..inputs.len()
        invariant
            acc == or_reduce(inputs@.take(i as int)),
    {
        assert(inputs@.take(i + 1).drop_last() == inputs@.take(i as int));
        acc = acc | inputs[i];
    }
    assert(inputs@.take(inputs@.len() as int) == inputs@);
    acc
}

/// Folds the inputs with bitwise AND, starting from 0xFF.
fn fold_and(inputs: &[u8]) -> (out: u8)
    ensures
        out == and_reduce(inputs@),
{
    let mut acc: u8 = 0xFF;
    for i in 0..inputs.len()
        invariant
            acc == and_reduce(inputs@.take(i as int)),
    {
        assert(inputs@.take(i + 1).drop_last() == inputs@.take(i as int));
        acc = acc & inputs[i];
    }
    assert(inputs@.take(inputs@.len() as int) == inputs@);
    acc
}

/// Folds the inputs with bitwise XOR, starting from 0.
fn fold_xor(inputs: &[u8]) -> (out: u8)
    ensures
        out == xor_reduce(inputs@),
{
    let mut acc: u8 = 0;
    for i in 0..inputs.len()
        invariant
            acc == xor_reduce(inputs@.take(i as int)),
    {
        assert(inputs@.take(i + 1).drop_last() == inputs@.take(i as int));
        acc = acc ^ inputs[i];
    }
    assert(inputs@.take(inputs@.len() as int) == inputs@);
    acc
}

/// A combinator node that sums all input values.
pub struct AdditionCombinatorNode {}

impl AdditionCombinatorNode {
    /// The canonical name of this combinator.
    pub const IDENTIFIER: &'static str = "addition";

    /// Creates the node. It has no state: any two are alike.
    pub fn new() -> (node: Self)
        ensures
            node == (Self {  }),
    {
        Self {  }
    }
}

impl Combinator for AdditionCombinatorNode {
    open spec fn spec_combine(&self, inputs: Seq<u8>) -> u8 {
        wrapped_sum(inputs)
    }

    open spec fn spec_identifier(&self) -> Seq<char> {
        "addition"@
    }

    fn combine(&self, inputs: &[u8]) -> (out: u8) {
        let mut acc: u8 = 0;
        for i in 0..inputs.len()
            invariant
                acc == wrapped_sum(inputs@.take(i as int)),
        {
            proof {
                let before = inputs@.take(i as int);
                assert(inputs@.take(i + 1).drop_last() == before);
                lemma_sum_bounds(before);
                lemma_add_mod_noop(sum(before), inputs@[i as int] as int, 256);
                lemma_small_mod(inputs@[i as int] as nat, 256);
            }
            acc = acc.wrapping_add(inputs[i]);
        }
        assert(inputs@.take(inputs@.len() as int) == inputs@);
        acc
    }

    fn identifier(&self) -> (name: String) {
        Self::IDENTIFIER.to_string()
    }
}

/// A combinator node that multiplies all input values.
pub struct MultiplicationCombinatorNode {}

impl MultiplicationCombinatorNode {
    /// The canonical name of this combinator.
    pub const IDENTIFIER: &'static str = "multiply";

    /// Creates the node. It has no state: any two are alike.
    pub fn new() -> (node: Self)
        ensures
            node == (Self {  }),
    {
        Self {  }
    }
}

impl Combinator for MultiplicationCombinatorNode {
    open spec fn spec_combine(&self, inputs: Seq<u8>) -> u8 {
        wrapped_product(inputs)
    }

    open spec fn spec_identifier(&self) -> Seq<char> {
        "multiply"@
    }

    fn combine(&self, inputs: &[u8]) -> (out: u8) {
        let mut acc: u8 = 1;
        for i in 0..inputs.len()
            invariant
                acc == wrapped_product(inputs@.take(i as int)),
        {
            proof {
                let before = inputs@.take(i as int);
                assert(inputs@.take(i + 1).drop_last() == before);
                lemma_product_nonnegative(before);
                lemma_product_nonnegative(inputs@.take(i + 1));
                lemma_mul_mod_noop(product(before), inputs@[i as int] as int, 256);
                lemma_small_mod(inputs@[i as int] as nat, 256);
            }
            acc = acc.wrapping_mul(inputs[i]);
        }
        assert(inputs@.take(inputs@.len() as int) == inputs@);
        acc
    }

    fn identifier(&self) -> (name: String) {
        Self::IDENTIFIER.to_string()
    }
}

/// A combinator node that returns the maximum value from the inputs.
pub struct MaxCombinatorNode {}

impl MaxCombinatorNode {
    /// The canonical name of this combinator.
    pub const IDENTIFIER: &'static str = "max";

    /// Creates the node. It has no state: any two are alike.
    pub fn new() -> (node: Self)
        ensures
            node == (Self {  }),
    {
        Self {  }
    }
}

impl Combinator for MaxCombinatorNode {
    open spec fn spec_combine(&self, inputs: Seq<u8>) -> u8 {
        maximum(inputs)
    }

    open spec fn spec_identifier(&self) -> Seq<char> {
        "max"@
    }

    fn combine(&self, inputs: &[u8]) -> (out: u8) {
        let mut best: u8 = 0;
        for i in 0..inputs.len()
            invariant
                best == maximum(inputs@.take(i as int)),
        {
            assert(inputs@.take(i + 1).drop_last() == inputs@.take(i as int));
            if inputs[i] >= best {
                best = inputs[i];
            }
        }
        assert(inputs@.take(inputs@.len() as int) == inputs@);
        best
    }

    fn identifier(&self) -> (name: String) {
        Self::IDENTIFIER.to_string()
    }
}

/// A combinator node that returns the minimum value from the inputs.
pub struct MinCombinatorNode {}

impl MinCombinatorNode {
    /// The canonical name of this combinator.
    pub const IDENTIFIER: &'static str = "min";

    /// Creates the node. It has no state: any two are alike.
    pub fn new() -> (node: Self)
        ensures
            node == (Self {  }),
    {
        Self {  }
    }
}

impl Combinator for MinCombinatorNode {
    open spec fn spec_combine(&self, inputs: Seq<u8>) -> u8 {
        minimum(inputs)
    }

    open spec fn spec_identifier(&self) -> Seq<char> {
        "min"@
    }

    fn combine(&self, inputs: &[u8]) -> (out: u8) {
        let mut best: u8 = 0;
        for i in 0..inputs.len()
            invariant
                best == minimum(inputs@.take(i as int)),
        {
            assert(inputs@.take(i + 1).drop_last() == inputs@.take(i as int));
            if i == 0 || inputs[i] <= best {
                best = inputs[i];
            }
        }
        assert(inputs@.take(inputs@.len() as int) == inputs@);
        best
    }

    fn identifier(&self) -> (name: String) {
        Self::IDENTIFIER.to_string()
    }
}

/// A combinator node that returns the average of the input values.
pub struct AverageCombinatorNode {}

impl AverageCombinatorNode {
    /// The canonical name of this combinator.
    pub const IDENTIFIER: &'static str = "average";

    /// Creates the node. It has no state: any two are alike.
    pub fn new() -> (node: Self)
        ensures
            node == (Self {  }),
    {
        Self {  }
    }
}

impl Combinator for AverageCombinatorNode {
    open spec fn spec_combine(&self, inputs: Seq<u8>) -> u8 {
        average(inputs)
    }

    open spec fn spec_identifier(&self) -> Seq<char> {
        "average"@
    }

    fn combine(&self, inputs: &[u8]) -> (out: u8) {
        if inputs.len() == 0 {
            return 0;
        }
        let mut total: u128 = 0;
        for i in 0..inputs.len()
            invariant
                total == sum(inputs@.take(i as int)),
        {
            proof {
                assert(inputs@.take(i + 1).drop_last() == inputs@.take(i as int));
                lemma_sum_bounds(inputs@.take(i as int));
            }
            total = total + inputs[i] as u128;
        }
        proof {
            assert(inputs@.take(inputs@.len() as int) == inputs@);
            lemma_average_in_range(inputs@);
        }
        (total / inputs.len() as u128) as u8
    }

    fn identifier(&self) -> (name: String) {
        Self::IDENTIFIER.to_string()
    }
}

/// A combinator node that returns the median value from the inputs.
pub struct MedianCombinatorNode {}

impl MedianCombinatorNode {
    /// The canonical name of this combinator.
    pub const IDENTIFIER: &'static str = "median";

    /// Creates the node. It has no state: any two are alike.
    pub fn new() -> (node: Self)
        ensures
            node == (Self {  }),
    {
        Self {  }
    }
}

impl Combinator for MedianCombinatorNode {
    open spec fn spec_combine(&self, inputs: Seq<u8>) -> u8 {
        median(inputs)
    }

    open spec fn spec_identifier(&self) -> Seq<char> {
        "median"@
    }

    fn combine(&self, inputs: &[u8]) -> (out: u8) {
        let sorted: Vec<u8> = sorted_copy(inputs);
        if sorted.len() == 0 {
            return 0;
        }
        let mid: usize = sorted.len() / 2;
        if sorted.len() % 2 == 0 {
            ((sorted[mid - 1] as u16 + sorted[mid] as u16) / 2) as u8
        } else {
            sorted[mid]
        }
    }

    fn identifier(&self) -> (name: String) {
        Self::IDENTIFIER.to_string()
    }
}

/// A combinator node that performs a bitwise OR across all input values.
pub struct ORCombinatorNode {}

impl ORCombinatorNode {
    /// The canonical name of this combinator.
    pub const IDENTIFIER: &'static str = "or";

    /// Creates the node. It has no state: any two are alike.
    pub fn new() -> (node: Self)
        ensures
            node == (Self {  }),
    {
        Self {  }
    }
}

impl Combinator for ORCombinatorNode {
    open spec fn spec_combine(&self, inputs: Seq<u8>) -> u8 {
        or_reduce(inputs)
    }

    open spec fn spec_identifier(&self) -> Seq<char> {
        "or"@
    }

    fn combine(&self, inputs: &[u8]) -> (out: u8) {
        fold_or(inputs)
    }

    fn identifier(&self) -> (name: String) {
        Self::IDENTIFIER.to_string()
    }
}

/// A combinator node that performs a bitwise AND across all input values.
pub struct ANDCombinatorNode {}

impl ANDCombinatorNode {
    /// The canonical name of this combinator.
    pub const IDENTIFIER: &'static str = "and";

    /// Creates the node. It has no state: any two are alike.
    pub fn new() -> (node: Self)
        ensures
            node == (Self {  }),
    {
        Self {  }
    }
}

impl Combinator for ANDCombinatorNode {
    open spec fn spec_combine(&self, inputs: Seq<u8>) -> u8 {
        and_reduce(inputs)
    }

    open spec fn spec_identifier(&self) -> Seq<char> {
        "and"@
    }

    fn combine(&self, inputs: &[u8]) -> (out: u8) {
        fold_and(inputs)
    }

    fn identifier(&self) -> (name: String) {
        Self::IDENTIFIER.to_string()
    }
}

/// A combinator node that performs a bitwise XOR across all input values.
pub struct XORCombinatorNode {}

impl XORCombinatorNode {
    /// The canonical name of this combinator.
    pub const IDENTIFIER: &'static str = "xor";

    /// Creates the node. It has no state: any two are alike.
    pub fn new() -> (node: Self)
        ensures
            node == (Self {  }),
    {
        Self {  }
    }
}

impl Combinator for XORCombinatorNode {
    open spec fn spec_combine(&self, inputs: Seq<u8>) -> u8 {
        xor_reduce(inputs)
    }

    open spec fn spec_identifier(&self) -> Seq<char> {
        "xor"@
    }

    fn combine(&self, inputs: &[u8]) -> (out: u8) {
        fold_xor(inputs)
    }

    fn identifier(&self) -> (name: String) {
        Self::IDENTIFIER.to_string()
    }
}

/// A combinator node that performs a bitwise NAND across all input values.
pub struct NANDCombinatorNode {}

impl NANDCombinatorNode {
    /// The canonical name of this combinator.
    pub const IDENTIFIER: &'static str = "nand";

    /// Creates the node. It has no state: any two are alike.
    pub fn new() -> (node: Self)
        ensures
            node == (Self {  }),
    {
        Self {  }
    }
}

impl Combinator for NANDCombinatorNode {
    open spec fn spec_combine(&self, inputs: Seq<u8>) -> u8 {
        !and_reduce(inputs)
    }

    open spec fn spec_identifier(&self) -> Seq<char> {
        "nand"@
    }

    fn combine(&self, inputs: &[u8]) -> (out: u8) {
        let and_result: u8 = fold_and(inputs);
        !and_result
    }

    fn identifier(&self) -> (name: String) {
        Self::IDENTIFIER.to_string()
    }
}

/// A combinator node that performs a bitwise NOR across all input values.
pub struct NORCombinatorNode {}

impl NORCombinatorNode {
    /// The canonical name of this combinator.
    pub const IDENTIFIER: &'static str = "nor";

    /// Creates the node. It has no state: any two are alike.
    pub fn new() -> (node: Self)
        ensures
            node == (Self {  }),
    {
        Self {  }
    }
}

impl Combinator for NORCombinatorNode {
    open spec fn spec_combine(&self, inputs: Seq<u8>) -> u8 {
        !or_reduce(inputs)
    }

    open spec fn spec_identifier(&self) -> Seq<char> {
        "nor"@
    }

    fn combine(&self, inputs: &[u8]) -> (out: u8) {
        let or_result: u8 = fold_or(inputs);
        !or_result
    }

    fn identifier(&self) -> (name: String) {
        Self::IDENTIFIER.to_string()
    }
}

/// A combinator node that performs a bitwise XNOR across all input values.
pub struct XNORCombinatorNode {}

impl XNORCombinatorNode {
    /// The canonical name of this combinator.
    pub const IDENTIFIER: &'static str = "xnor";

    /// Creates the node. It has no state: any two are alike.
    pub fn new() -> (node: Self)
        ensures
            node == (Self {  }),
    {
        Self {  }
    }
}

impl Combinator for XNORCombinatorNode {
    open spec fn spec_combine(&self, inputs: Seq<u8>) -> u8 {
        !xor_reduce(inputs)
    }

    open spec fn spec_identifier(&self) -> Seq<char> {
        "xnor"@
    }

    fn combine(&self, inputs: &[u8]) -> (out: u8) {
        let xor_result: u8 = fold_xor(inputs);
        !xor_result
    }

    fn identifier(&self) -> (name: String) {
        Self::IDENTIFIER.to_string()
    }
}

/// Looks up a combinator by a name that is already in lower case: a
/// canonical name or an alias. Any other name yields `None`.
pub fn combinator_from_lowercase(lowered: &str) -> (found: Option<Box<dyn Combinator>>)
    ensures
        resolves_to(found, kind_of_name(lowered@)),
{
    if same_text(lowered, AdditionCombinatorNode::IDENTIFIER) || same_text(lowered, "add")
        || same_text(lowered, "+") {
        Some(Box::new(AdditionCombinatorNode {  }))
    } else if same_text(lowered, MultiplicationCombinatorNode::IDENTIFIER) || same_text(
        lowered,
        "multiplication",
    ) || same_text(lowered, "*") {
        Some(Box::new(MultiplicationCombinatorNode {  }))
    } else if same_text(lowered, MaxCombinatorNode::IDENTIFIER) {
        Some(Box::new(MaxCombinatorNode {  }))
    } else if same_text(lowered, MinCombinatorNode::IDENTIFIER) {
        Some(Box::new(MinCombinatorNode {  }))
    } else if same_text(lowered, AverageCombinatorNode::IDENTIFIER) || same_text(lowered, "avg") {
        Some(Box::new(AverageCombinatorNode {  }))
    } else if same_text(lowered, MedianCombinatorNode::IDENTIFIER) {
        Some(Box::new(MedianCombinatorNode {  }))
    } else if same_text(lowered, ORCombinatorNode::IDENTIFIER) {
        Some(Box::new(ORCombinatorNode {  }))
    } else if same_text(lowered, ANDCombinatorNode::IDENTIFIER) {
        Some(Box::new(ANDCombinatorNode {  }))
    } else if same_text(lowered, XORCombinatorNode::IDENTIFIER) {
        Some(Box::new(XORCombinatorNode {  }))
    } else if same_text(lowered, NANDCombinatorNode::IDENTIFIER) {
        Some(Box::new(NANDCombinatorNode {  }))
    } else if same_text(lowered, NORCombinatorNode::IDENTIFIER) {
        Some(Box::new(NORCombinatorNode {  }))
    } else if same_text(lowered, XNORCombinatorNode::IDENTIFIER) {
        Some(Box::new(XNORCombinatorNode {  }))
    } else {
        None
    }
}

/// Looks up a combinator by name, ignoring case: the name is put in lower
/// case and then looked up as `combinator_from_lowercase` does.
pub fn combinator_from_str(name: &str) -> (found: Option<Box<dyn Combinator>>)
    ensures
        resolves_to(found, kind_of_name(lowercase_of(name@))),
{
    let lowered: String = to_lowercase(name);
    combinator_from_lowercase(lowered.as_str())
}

} // verus!
