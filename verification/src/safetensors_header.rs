//! The header of a SafeTensors file: where it says that the tensors lie.

use crate::le;
use vstd::multiset::Multiset;
use vstd::prelude::*;

verus! {

/// The longest header that is read.
pub const MAX_HEADER_SIZE: u64 = 100_000_000;

/// What a header says of a tensor: where its data starts and ends, counted from the end of the
/// header, the number of elements along each dimension, and the size of an element.
pub struct DeclaredTensor {
    pub start: usize,
    pub end: usize,
    pub shape: Vec<usize>,
    pub element_size: usize,
}

/// The mathematical content of what a header says of a tensor.
#[verifier::ext_equal]
pub struct Declaration {
    pub start: usize,
    pub end: usize,
    pub shape: Seq<usize>,
    pub element_size: usize,
}

impl View for DeclaredTensor {
    type V = Declaration;

    open spec fn view(&self) -> Declaration {
        Declaration {
            start: self.start,
            end: self.end,
            shape: self.shape@,
            element_size: self.element_size,
        }
    }
}

/// What a header says of several tensors.
pub open spec fn declarations(tensors: Seq<DeclaredTensor>) -> Seq<Declaration> {
    Seq::new(tensors.len(), |i: int| tensors[i]@)
}

/// The header of a file: the first eight bytes give its length.
pub open spec fn header(bytes: Seq<u8>) -> Option<Seq<u8>> {
    let n = le::le_value(bytes.take(8));
    if bytes.len() < 8 || n > MAX_HEADER_SIZE || bytes.len() < 8 + n {
        None
    } else {
        Some(bytes.subrange(8, 8 + n as int))
    }
}

/// What `serde_json::from_str` makes of a header, read as a `safetensors::tensor::Metadata`: what
/// it says of the tensors, or nothing where it fails or the header is no UTF-8.
pub uninterp spec fn declared_tensors(header: Seq<u8>) -> Option<Multiset<Declaration>>;

/// Calls `serde_json::from_str` for a `safetensors::tensor::Metadata`, as
/// `safetensors::SafeTensors::deserialize` does, and takes the offsets, the shape and the size of
/// an element of each tensor from it, each tensor once. They come in the order in which a hash map
/// is walked, of which nothing is said.
#[verifier::external_body]
fn read_declarations(header: &[u8]) -> (r: Option<Vec<DeclaredTensor>>)
    ensures
        declared_tensors(header@) == match r {
            Some(tensors) => Some(declarations(tensors@).to_multiset()),
            None => None,
        },
{
    let text = std::str::from_utf8(header).ok()?;
    let metadata = serde_json::from_str::<safetensors::tensor::Metadata>(text).ok()?;
    Some(metadata.tensors().values().map(|t| DeclaredTensor {
        start: t.data_offsets.0,
        end: t.data_offsets.1,
        shape: t.shape.clone(),
        element_size: t.dtype.size(),
    }).collect())
}

/// The number of elements of a shape; none where it, or that of the first dimensions alone, is
/// more than a `usize` holds.
pub open spec fn element_count(shape: Seq<usize>) -> Option<nat>
    decreases shape.len(),
{
    if shape.len() == 0 {
        Some(1)
    } else {
        match element_count(shape.drop_last()) {
            Some(n) => if n * shape.last() <= usize::MAX {
                Some(n * shape.last() as nat)
            } else {
                None
            },
            None => None,
        }
    }
}

/// The data of a tensor is as long as its elements are.
pub open spec fn consistent(t: Declaration) -> bool {
    &&& t.start <= t.end
    &&& element_count(t.shape) matches Some(n) && n * t.element_size == t.end - t.start
}

/// The tensors lie one directly behind the other, from `at` on, and each is consistent.
pub open spec fn chained(order: Seq<Declaration>, at: nat) -> bool
    decreases order.len(),
{
    order.len() == 0 || {
        &&& order[0].start == at
        &&& consistent(order[0])
        &&& chained(order.drop_first(), order[0].end as nat)
    }
}

/// Where tensors that lie from `at` on end.
pub open spec fn chain_end(order: Seq<Declaration>, at: nat) -> nat {
    if order.len() == 0 {
        at
    } else {
        order.last().end as nat
    }
}

/// In some order the tensors lie one directly behind the other, from `at` up to `end`.
pub open spec fn cover(tensors: Multiset<Declaration>, at: nat, end: nat) -> bool {
    exists|order: Seq<Declaration>|
        #![trigger chained(order, at)]
        order.to_multiset() == tensors && chained(order, at) && chain_end(order, at) == end
}

/// Where the header lets the tensors lie one directly behind the other, the length that the file
/// must have for them is a `usize`.
pub open spec fn size_fits(bytes: Seq<u8>) -> bool {
    header(bytes) matches Some(h) ==> (declared_tensors(h) matches Some(tensors) ==> forall|end: nat|
        #[trigger] cover(tensors, 0, end) ==> end + 8 + h.len() <= usize::MAX)
}

/// Each tensor of a chain is consistent and starts at its start or behind it.
proof fn lemma_in_chain(order: Seq<Declaration>, at: nat, k: int)
    requires
        chained(order, at),
        0 <= k < order.len(),
    ensures
        consistent(order[k]),
        order[k].start >= at,
        k > 0 ==> order[k].start >= order[0].end,
    decreases k,
{
    if k > 0 {
        assert(order.drop_first()[k - 1] == order[k]);
        lemma_in_chain(order.drop_first(), order[0].end as nat, k - 1);
    }
}

/// A tensor without data can be taken out of a chain.
proof fn lemma_remove_empty(order: Seq<Declaration>, at: nat, k: int)
    requires
        chained(order, at),
        0 <= k < order.len(),
        order[k].start == order[k].end,
    ensures
        chained(order.remove(k), at),
        chain_end(order.remove(k), at) == chain_end(order, at),
    decreases k,
{
    let rest = order.remove(k);
    let next = order[0].end as nat;
    if k == 0 {
        assert(rest =~= order.drop_first());
    } else {
        assert(order.drop_first()[k - 1] == order[k]);
        lemma_remove_empty(order.drop_first(), next, k - 1);
        assert(rest.drop_first() =~= order.drop_first().remove(k - 1));
        assert(rest[0] == order[0]);
        assert(chain_end(rest, at) == chain_end(rest.drop_first(), next));
        assert(chain_end(order, at) == chain_end(order.drop_first(), next));
    }
}

/// The tensor that a chain can begin with, of several the shortest, can be taken as its first.
proof fn lemma_take_first(tensors: Multiset<Declaration>, at: nat, first: Declaration, end: nat)
    requires
        tensors.count(first) > 0,
        first.start == at,
        consistent(first),
        forall|t: Declaration| #[trigger]
            tensors.count(t) > 0 && t.start == at ==> t.end >= first.end,
    ensures
        cover(tensors, at, end) <==> cover(tensors.remove(first), first.end as nat, end),
{
    broadcast use vstd::seq_lib::group_to_multiset_ensures;

    if cover(tensors, at, end) {
        let order = choose|order: Seq<Declaration>|
            #![trigger chained(order, at)]
            order.to_multiset() == tensors && chained(order, at) && chain_end(order, at) == end;
        assert(order.contains(first));
        let k = order.index_of(first);
        if first.end == at {
            lemma_remove_empty(order, at, k);
            assert(order.remove(k).to_multiset() == tensors.remove(first));
            assert(chained(order.remove(k), first.end as nat));
        } else {
            if k > 0 {
                assert(order.contains(order[0]));
                assert(tensors.count(order[0]) > 0);
                lemma_in_chain(order, at, k);
            }
            assert(order.remove(0) =~= order.drop_first());
            assert(order.remove(0).to_multiset() == tensors.remove(first));
            assert(chained(order.drop_first(), first.end as nat));
        }
    }
    if cover(tensors.remove(first), first.end as nat, end) {
        let rest = choose|order: Seq<Declaration>|
            #![trigger chained(order, first.end as nat)]
            order.to_multiset() == tensors.remove(first) && chained(order, first.end as nat)
                && chain_end(order, first.end as nat) == end;
        let order = rest.insert(0, first);
        assert(order.drop_first() =~= rest);
        assert(tensors.remove(first).insert(first) =~= tensors);
        vstd::seq_lib::to_multiset_insert(rest, 0, first);
        assert(order.to_multiset() == tensors);
        assert(chained(order, at));
    }
}

/// Where a tensor is not consistent, or none of several starts at `at`, there is no chain.
proof fn lemma_no_chain(tensors: Multiset<Declaration>, at: nat, t: Declaration)
    requires
        tensors.count(t) > 0,
        !consistent(t) || forall|u: Declaration| #[trigger] tensors.count(u) > 0 ==> u.start != at,
    ensures
        forall|end: nat| !cover(tensors, at, end),
{
    broadcast use vstd::seq_lib::group_to_multiset_ensures;

    assert forall|end: nat| !cover(tensors, at, end) by {
        if cover(tensors, at, end) {
            let order = choose|order: Seq<Declaration>|
                #![trigger chained(order, at)]
                order.to_multiset() == tensors && chained(order, at) && chain_end(order, at) == end;
            assert(order.contains(t));
            lemma_in_chain(order, at, order.index_of(t));
            assert(order.contains(order[0]));
            assert(tensors.count(order[0]) > 0);
        }
    }
}

/// No tensors end where they start.
proof fn lemma_cover_nothing(at: nat, end: nat)
    ensures
        cover(Multiset::empty(), at, end) <==> end == at,
{
    broadcast use vstd::seq_lib::group_to_multiset_ensures;

    let nothing = Seq::<Declaration>::empty();
    assert(nothing.to_multiset() =~= Multiset::empty());
    assert(chained(nothing, at));
    if cover(Multiset::empty(), at, end) {
        let order = choose|order: Seq<Declaration>|
            #![trigger chained(order, at)]
            order.to_multiset() == Multiset::<Declaration>::empty() && chained(order, at)
                && chain_end(order, at) == end;
        vstd::seq_lib::to_multiset_len(order);
        assert(order.len() == 0);
    }
}

/// A chain ends at its start or where one of its tensors ends.
proof fn lemma_cover_end(tensors: Multiset<Declaration>, at: nat, end: nat)
    requires
        cover(tensors, at, end),
    ensures
        end == at || exists|t: Declaration| #[trigger] tensors.count(t) > 0 && t.end == end,
{
    broadcast use vstd::seq_lib::group_to_multiset_ensures;

    let order = choose|order: Seq<Declaration>|
        #![trigger chained(order, at)]
        order.to_multiset() == tensors && chained(order, at) && chain_end(order, at) == end;
    if order.len() > 0 {
        assert(order.contains(order.last()));
        assert(tensors.count(order.last()) > 0);
    }
}

/// The number of elements of a shape.
fn count_elements(shape: &Vec<usize>) -> (r: Option<usize>)
    ensures
        element_count(shape@) == match r {
            Some(n) => Some(n as nat),
            None => None,
        },
{
    let mut n: usize = 1;
    let mut i: usize = 0;
    proof {
        assert(shape@.take(0) =~= Seq::empty());
    }
    while i < shape.len()
        invariant
            i <= shape@.len(),
            element_count(shape@.take(i as int)) == Some(n as nat),
        decreases shape@.len() - i,
    {
        proof {
            assert(shape@.take(i + 1).drop_last() =~= shape@.take(i as int));
            assert(shape@.take(i + 1).last() == shape@[i as int]);
        }
        n = match n.checked_mul(shape[i]) {
            Some(n) => n,
            None => {
                proof {
                    lemma_count_stops(shape@, i + 1);
                }
                return None;
            },
        };
        i = i + 1;
    }
    assert(shape@.take(i as int) =~= shape@);
    Some(n)
}

/// Once the first dimensions have too many elements, all of them have.
proof fn lemma_count_stops(shape: Seq<usize>, k: int)
    requires
        0 <= k <= shape.len(),
        element_count(shape.take(k)) is None,
    ensures
        element_count(shape) is None,
    decreases shape.len() - k,
{
    if k == shape.len() {
        assert(shape.take(k) =~= shape);
    } else {
        assert(shape.take(k + 1).drop_last() =~= shape.take(k));
        lemma_count_stops(shape, k + 1);
    }
}

/// Whether the data of a tensor is as long as its elements are.
fn is_consistent(t: &DeclaredTensor) -> (r: bool)
    ensures
        r == consistent(t@),
{
    if t.start > t.end {
        return false;
    }
    match count_elements(&t.shape) {
        Some(n) => match n.checked_mul(t.element_size) {
            Some(size) => size == t.end - t.start,
            None => false,
        },
        None => false,
    }
}

/// The position of the tensor that a chain from `at` on can begin with, of several the shortest.
fn find_first(tensors: &Vec<DeclaredTensor>, at: usize) -> (r: Option<usize>)
    ensures
        match r {
            Some(k) => k < tensors@.len() && tensors@[k as int].start == at && forall|i: int|
                0 <= i < tensors@.len() && (#[trigger] tensors@[i]).start == at ==> tensors@[i].end
                    >= tensors@[k as int].end,
            None => forall|i: int|
                0 <= i < tensors@.len() ==> (#[trigger] tensors@[i]).start != at,
        },
{
    let mut best: Option<usize> = None;
    let mut i: usize = 0;
    while i < tensors.len()
        invariant
            i <= tensors@.len(),
            match best {
                Some(k) => k < i && tensors@[k as int].start == at && forall|j: int|
                    0 <= j < i && (#[trigger] tensors@[j]).start == at ==> tensors@[j].end
                        >= tensors@[k as int].end,
                None => forall|j: int| 0 <= j < i ==> (#[trigger] tensors@[j]).start != at,
            },
        decreases tensors@.len() - i,
    {
        if tensors[i].start == at {
            best = match best {
                Some(k) => if tensors[i].end < tensors[k].end {
                    Some(i)
                } else {
                    Some(k)
                },
                None => Some(i),
            };
        }
        i = i + 1;
    }
    best
}

/// Where the tensors end, if in some order they lie one directly behind the other.
fn covered_end(tensors: Vec<DeclaredTensor>) -> (r: Option<usize>)
    ensures
        match r {
            Some(e) => forall|end: nat| #[trigger]
                cover(declarations(tensors@).to_multiset(), 0, end) <==> end == e,
            None => forall|end: nat| !cover(declarations(tensors@).to_multiset(), 0, end),
        },
{
    let ghost all = declarations(tensors@).to_multiset();
    let mut rest = tensors;
    let mut at: usize = 0;
    while rest.len() > 0
        invariant
            all == declarations(tensors@).to_multiset(),
            forall|end: nat| #[trigger]
                cover(all, 0, end) <==> cover(declarations(rest@).to_multiset(), at as nat, end),
        decreases rest@.len(),
    {
        let ghost left = declarations(rest@);
        let ghost bag = left.to_multiset();
        proof {
            vstd::seq_lib::to_multiset_contains(left, left[0]);
            assert(left.contains(left[0]));
        }
        let k: usize = match find_first(&rest, at) {
            Some(k) => k,
            None => {
                proof {
                    assert forall|u: Declaration| #[trigger] bag.count(u) > 0 implies u.start
                        != at by {
                        vstd::seq_lib::to_multiset_contains(left, u);
                        let i = left.index_of(u);
                        assert(rest@[i].start != at);
                    }
                    lemma_no_chain(bag, at as nat, left[0]);
                }
                return None;
            },
        };
        let ghost first = left[k as int];
        proof {
            vstd::seq_lib::to_multiset_contains(left, first);
            assert(left.contains(first));
        }
        if !is_consistent(&rest[k]) {
            proof {
                lemma_no_chain(bag, at as nat, first);
            }
            return None;
        }
        proof {
            assert forall|t: Declaration| #[trigger]
                bag.count(t) > 0 && t.start == at implies t.end >= first.end by {
                vstd::seq_lib::to_multiset_contains(left, t);
                let i = left.index_of(t);
                assert(rest@[i].start == at);
            }
            assert forall|end: nat| #[trigger]
                cover(all, 0, end) <==> cover(bag.remove(first), first.end as nat, end) by {
                lemma_take_first(bag, at as nat, first, end);
            }
        }
        at = rest[k].end;
        rest.remove(k);
        proof {
            assert(declarations(rest@) =~= left.remove(k as int));
            vstd::seq_lib::to_multiset_remove(left, k as int);
        }
    }
    proof {
        vstd::seq_lib::to_multiset_len(declarations(rest@));
        assert(declarations(rest@) =~= Seq::empty());
        assert(Seq::<Declaration>::empty().to_multiset() =~= Multiset::empty());
        assert forall|end: nat| #[trigger] cover(all, 0, end) <==> end == at by {
            lemma_cover_nothing(at as nat, end);
        }
    }
    Some(at)
}

/// Whether the length that a file must have for its tensors is a `usize`.
pub(crate) fn check_size(bytes: &[u8]) -> (r: bool)
    ensures
        r == size_fits(bytes@),
{
    if bytes.len() < 8 {
        return true;
    }
    let n: u64 = le::get_u64(vstd::slice::slice_subrange(bytes, 0, 8));
    assert(bytes@.subrange(0, 8) =~= bytes@.take(8));
    if n > MAX_HEADER_SIZE || n > (bytes.len() - 8) as u64 {
        return true;
    }
    let stop: usize = 8 + n as usize;
    let header_bytes = vstd::slice::slice_subrange(bytes, 8, stop);
    let ghost h = header_bytes@;
    assert(header(bytes@) == Some(h));
    let tensors = match read_declarations(header_bytes) {
        Some(tensors) => tensors,
        None => {
            return true;
        },
    };
    let ghost bag = declarations(tensors@).to_multiset();
    if !has_far_end(&tensors, stop) {
        proof {
            assert forall|end: nat| #[trigger] cover(bag, 0, end) implies end + 8 + h.len()
                <= usize::MAX by {
                lemma_cover_end(bag, 0, end);
                if end != 0 {
                    let t = choose|t: Declaration| #[trigger] bag.count(t) > 0 && t.end == end;
                    vstd::seq_lib::to_multiset_contains(declarations(tensors@), t);
                    let i = declarations(tensors@).index_of(t);
                    assert(tensors@[i].end + stop <= usize::MAX);
                }
            }
        }
        return true;
    }
    match covered_end(tensors) {
        Some(end) => {
            assert(cover(bag, 0, end as nat));
            assert(cover(declared_tensors(h)->0, 0, end as nat));
            end <= usize::MAX - stop
        },
        None => true,
    }
}

/// Whether a tensor is said to end so far out that its position in the file is no `usize`.
fn has_far_end(tensors: &Vec<DeclaredTensor>, stop: usize) -> (r: bool)
    ensures
        !r ==> forall|i: int|
            0 <= i < tensors@.len() ==> (#[trigger] tensors@[i]).end + stop <= usize::MAX,
        r ==> exists|i: int|
            0 <= i < tensors@.len() && (#[trigger] tensors@[i]).end + stop > usize::MAX,
{
    let mut i: usize = 0;
    while i < tensors.len()
        invariant
            i <= tensors@.len(),
            forall|j: int| 0 <= j < i ==> (#[trigger] tensors@[j]).end + stop <= usize::MAX,
        decreases tensors@.len() - i,
    {
        if tensors[i].end > usize::MAX - stop {
            return true;
        }
        i = i + 1;
    }
    false
}

/// The header of a file is as many bytes behind the first eight as these say, the lowest of them
/// first. A file that is shorter has none, and neither has one whose header is said to be longer
/// than a hundred million bytes.
pub proof fn law_header(bytes: Seq<u8>)
    ensures
        ({
            let n = le::le_value(bytes.subrange(0, 8));
            if bytes.len() >= 8 && n <= 100_000_000 && 8 + n <= bytes.len() {
                &&& header(bytes) matches Some(h)
                &&& h.len() == n
                &&& h == bytes.subrange(8, 8 + n as int)
            } else {
                header(bytes) is None
            }
        }),
{
    if bytes.len() >= 8 {
        assert(bytes.subrange(0, 8) =~= bytes.take(8));
    }
}

/// What a header says of a tensor is kept as it is.
pub proof fn law_declarations_in_order(tensors: Seq<DeclaredTensor>, i: int)
    ensures
        declarations(tensors).len() == tensors.len(),
        0 <= i < tensors.len() ==> {
            let d = declarations(tensors)[i];
            &&& d.start == tensors[i].start
            &&& d.end == tensors[i].end
            &&& d.shape == tensors[i].shape@
            &&& d.element_size == tensors[i].element_size
        },
{
}

/// A further dimension multiplies the number of elements, as long as a `usize` holds it.
pub proof fn law_element_count(shape: Seq<usize>, n: usize)
    ensures
        element_count(Seq::empty()) == Some(1nat),
        match element_count(shape) {
            Some(m) => m * n <= usize::MAX ==> element_count(shape.push(n)) == Some(
                (m * n) as nat,
            ),
            None => element_count(shape.push(n)) is None,
        },
        element_count(shape) matches Some(m) && m * n > usize::MAX ==> element_count(shape.push(n))
            is None,
{
    assert(shape.push(n).drop_last() =~= shape);
}

/// Tensors lie one directly behind the other, from `at` on, exactly when each starts where the
/// one before it ends, and its length is that of its elements.
pub proof fn law_chained(order: Seq<Declaration>, at: nat)
    ensures
        chained(order, at) <==> forall|i: int|
            0 <= i < order.len() ==> {
                let t = #[trigger] order[i];
                &&& t.start == if i == 0 {
                    at
                } else {
                    order[i - 1].end as nat
                }
                &&& t.start <= t.end
                &&& element_count(t.shape) matches Some(n) && n * t.element_size == t.end - t.start
            },
    decreases order.len(),
{
    if order.len() > 0 {
        let rest = order.drop_first();
        let next = order[0].end as nat;
        law_chained(rest, next);
        if chained(order, at) {
            assert forall|i: int| 0 <= i < order.len() implies {
                let t = #[trigger] order[i];
                &&& t.start == if i == 0 {
                    at
                } else {
                    order[i - 1].end as nat
                }
                &&& t.start <= t.end
                &&& element_count(t.shape) matches Some(n) && n * t.element_size == t.end - t.start
            } by {
                if i > 0 {
                    assert(rest[i - 1] == order[i]);
                    if i > 1 {
                        assert(rest[i - 2] == order[i - 1]);
                    }
                }
            }
        }
        if forall|i: int|
            0 <= i < order.len() ==> {
                let t = #[trigger] order[i];
                &&& t.start == if i == 0 {
                    at
                } else {
                    order[i - 1].end as nat
                }
                &&& t.start <= t.end
                &&& element_count(t.shape) matches Some(n) && n * t.element_size == t.end - t.start
            } {
            assert(order[0].start == at);
            assert forall|i: int| 0 <= i < rest.len() implies {
                let t = #[trigger] rest[i];
                &&& t.start == if i == 0 {
                    next
                } else {
                    rest[i - 1].end as nat
                }
                &&& t.start <= t.end
                &&& element_count(t.shape) matches Some(n) && n * t.element_size == t.end - t.start
            } by {
                assert(rest[i] == order[i + 1]);
            }
        }
    }
}

/// A file is refused before it is decoded exactly when its header lets the tensors lie one
/// directly behind the other and the length of the file that this asks for, which is that of the
/// header, eight more, and the end of the last tensor, is larger than the largest `usize`. So
/// some tensor is then said to end beyond it.
pub proof fn law_refused_before_decoding(bytes: Seq<u8>)
    ensures
        !size_fits(bytes) <==> {
            &&& header(bytes) is Some
            &&& declared_tensors(header(bytes)->0) is Some
            &&& exists|order: Seq<Declaration>|
                #![trigger chained(order, 0)]
                order.to_multiset() == declared_tensors(header(bytes)->0)->0 && chained(order, 0)
                    && (if order.len() == 0 {
                    0
                } else {
                    order.last().end as int
                }) + 8 + header(bytes)->0.len() > usize::MAX
        },
        !size_fits(bytes) ==> exists|t: Declaration| #[trigger]
            declared_tensors(header(bytes)->0)->0.count(t) > 0 && t.end + 8 + header(
                bytes,
            )->0.len() > usize::MAX,
{
    if header(bytes) is Some && declared_tensors(header(bytes)->0) is Some {
        let h = header(bytes)->0;
        let tensors = declared_tensors(h)->0;
        if !size_fits(bytes) {
            let end = choose|end: nat| #[trigger]
                cover(tensors, 0, end) && end + 8 + h.len() > usize::MAX;
            let order = choose|order: Seq<Declaration>|
                #![trigger chained(order, 0)]
                order.to_multiset() == tensors && chained(order, 0) && chain_end(order, 0) == end;
            assert(chained(order, 0));
            lemma_cover_end(tensors, 0, end);
            if end == 0 {
                lemma_header_fits(bytes);
            }
        }
        if exists|order: Seq<Declaration>|
            #![trigger chained(order, 0)]
            order.to_multiset() == tensors && chained(order, 0) && (if order.len() == 0 {
                0
            } else {
                order.last().end as int
            }) + 8 + h.len() > usize::MAX {
            let order = choose|order: Seq<Declaration>|
                #![trigger chained(order, 0)]
                order.to_multiset() == tensors && chained(order, 0) && (if order.len() == 0 {
                    0
                } else {
                    order.last().end as int
                }) + 8 + h.len() > usize::MAX;
            assert(cover(tensors, 0, chain_end(order, 0)));
        }
    }
}

/// A header lies within a hundred million bytes.
proof fn lemma_header_fits(bytes: Seq<u8>)
    ensures
        header(bytes) matches Some(h) ==> 8 + h.len() <= usize::MAX,
{
}

} // verus!
