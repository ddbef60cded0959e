use vstd::prelude::*;
use vstd::multiset::Multiset;

verus! {

broadcast use vstd::seq_lib::group_to_multiset_ensures, vstd::multiset::group_multiset_axioms;

/// A part of a multipart upload that S3 has stored: its entity tag and number.
#[derive(Debug, PartialEq, Eq, Clone)]
pub struct CompletedPart {
    /// The entity tag S3 returned for the part.
    pub e_tag: Option<String>,
    /// The part's number, counted from 1.
    pub part_number: i32,
}

/// The part numbers of `parts`, in order.
pub open spec fn part_number_seq(parts: Seq<CompletedPart>) -> Seq<i32> {
    parts.map_values(|p: CompletedPart| p.part_number)
}

/// The part numbers of `parts`, as a multiset.
pub open spec fn part_numbers(parts: Seq<CompletedPart>) -> Multiset<i32> {
    part_number_seq(parts).to_multiset()
}

proof fn lemma_part_numbers_insert(c: Seq<CompletedPart>, i: int, x: CompletedPart)
    requires
        0 <= i <= c.len(),
    ensures
        part_numbers(c.insert(i, x)) == part_numbers(c).insert(x.part_number),
        part_numbers(c.push(x)) == part_numbers(c).insert(x.part_number),
{
    assert(part_number_seq(c.insert(i, x)) =~= part_number_seq(c).insert(i, x.part_number));
    assert(part_number_seq(c.push(x)) =~= part_number_seq(c).push(x.part_number));
}

/// Whether a part has the number `v`.
pub open spec fn has_number(v: i32) -> spec_fn(CompletedPart) -> bool {
    |p: CompletedPart| p.part_number == v
}

/// The parts of `parts` that have the number `v`, in their order.
pub open spec fn numbered_as(parts: Seq<CompletedPart>, v: i32) -> Seq<CompletedPart> {
    parts.filter(has_number(v))
}

proof fn lemma_numbered_as_none(parts: Seq<CompletedPart>, v: i32)
    requires
        forall|j: int| 0 <= j < parts.len() ==> #[trigger] parts[j].part_number != v,
    ensures
        numbered_as(parts, v) == Seq::<CompletedPart>::empty(),
    decreases parts.len(),
{
    reveal(Seq::filter);
    if parts.len() > 0 {
        lemma_numbered_as_none(parts.drop_last(), v);
    }
}

/// Inserting `x` at `i`, after parts numbered below `x` only, puts it first
/// among the parts with its number and leaves the others' order alone.
proof fn lemma_numbered_as_insert(parts: Seq<CompletedPart>, i: int, x: CompletedPart, v: i32)
    requires
        0 <= i <= parts.len(),
        forall|j: int| 0 <= j < i ==> #[trigger] parts[j].part_number < x.part_number,
    ensures
        numbered_as(parts.insert(i, x), v) == numbered_as(seq![x], v) + numbered_as(parts, v),
{
    let pred = has_number(v);
    let front = parts.take(i);
    let back = parts.skip(i);
    assert(parts =~= front + back);
    assert(parts.insert(i, x) =~= front + (seq![x] + back));
    Seq::filter_distributes_over_add(front, back, pred);
    Seq::filter_distributes_over_add(front, seq![x] + back, pred);
    Seq::filter_distributes_over_add(seq![x], back, pred);
    if x.part_number == v {
        lemma_numbered_as_none(front, v);
        assert(numbered_as(front, v) + (numbered_as(seq![x], v) + numbered_as(back, v)) =~= numbered_as(
            seq![x],
            v,
        ) + (numbered_as(front, v) + numbered_as(back, v)));
    } else {
        lemma_numbered_as_none(seq![x], v);
        assert(numbered_as(front, v) + (numbered_as(seq![x], v) + numbered_as(back, v)) =~= numbered_as(
            seq![x],
            v,
        ) + (numbered_as(front, v) + numbered_as(back, v)));
    }
}

/// `parts` is in ascending order of part number.
pub open spec fn sorted_by_part_number(parts: Seq<CompletedPart>) -> bool {
    forall|i: int, j: int|
        0 <= i < j < parts.len() ==> #[trigger] parts[i].part_number <= #[trigger] parts[j].part_number
}

/// Orders completed parts by ascending part number, as S3 requires when a
/// multipart upload is completed. The result holds the same parts, and parts
/// with the same number keep their order: the sort is stable.
pub fn sort_by_part_number(parts: Vec<CompletedPart>) -> (r: Vec<CompletedPart>)
    ensures
        r@.to_multiset() == parts@.to_multiset(),
        part_numbers(r@) == part_numbers(parts@),
        sorted_by_part_number(r@),
        forall|v: i32| #[trigger] numbered_as(r@, v) == numbered_as(parts@, v),
{
    let ghost input = parts@;
    let mut rest = parts;
    let mut out: Vec<CompletedPart> = Vec::new();
    proof {
        assert(rest@ =~= input.take(input.len() as int));
        assert forall|v: i32| #[trigger] numbered_as(out@, v) == numbered_as(input.skip(input.len() as int), v) by {
            assert(out@ =~= Seq::<CompletedPart>::empty());
            assert(input.skip(input.len() as int) =~= Seq::<CompletedPart>::empty());
        }
        assert(out@.to_multiset() =~= Multiset::empty());
        assert(out@.to_multiset().add(rest@.to_multiset()) =~= parts@.to_multiset());
        assert(part_numbers(out@) =~= Multiset::empty()) by {
            assert(part_number_seq(out@) =~= Seq::empty());
        }
        assert(part_numbers(out@).add(part_numbers(rest@)) =~= part_numbers(parts@));
    }
    while rest.len() > 0
        invariant
            sorted_by_part_number(out@),
            out@.to_multiset().add(rest@.to_multiset()) == parts@.to_multiset(),
            part_numbers(out@).add(part_numbers(rest@)) == part_numbers(parts@),
            parts@ == input,
            rest@.len() <= input.len(),
            rest@ == input.take(rest@.len() as int),
            forall|v: i32| #[trigger] numbered_as(out@, v) == numbered_as(input.skip(rest@.len() as int), v),
        decreases rest.len(),
    {
        let ghost before = rest@;
        let x = rest.pop().unwrap();
        proof {
            assert(before =~= rest@.push(x));
            lemma_part_numbers_insert(rest@, 0, x);
            assert(rest@ =~= input.take(rest@.len() as int));
            assert(input.skip(rest@.len() as int) =~= seq![x] + input.skip(before.len() as int));
        }
        let mut i: usize = 0;
        while i < out.len() && out[i].part_number < x.part_number
            invariant
                i <= out.len(),
                forall|j: int| 0 <= j < i ==> #[trigger] out@[j].part_number < x.part_number,
            decreases out.len() - i,
        {
            i = i + 1;
        }
        let ghost old_out = out@;
        out.insert(i, x);
        proof {
            assert forall|a: int, b: int| 0 <= a < b < out@.len() implies #[trigger] out@[a].part_number
                <= #[trigger] out@[b].part_number by {
                if b < i {
                } else if a < i && b == i {
                } else if a < i && b > i {
                    assert(out@[b] == old_out[b - 1]);
                    if i < old_out.len() {
                        assert(old_out[i as int].part_number <= old_out[b - 1].part_number);
                    }
                } else if a == i {
                    assert(out@[b] == old_out[b - 1]);
                    assert(old_out[i as int].part_number <= old_out[b - 1].part_number);
                } else {
                    assert(out@[a] == old_out[a - 1] && out@[b] == old_out[b - 1]);
                }
            }
            assert(out@.to_multiset().add(rest@.to_multiset()) =~= parts@.to_multiset());
            lemma_part_numbers_insert(old_out, i as int, x);
            assert(part_numbers(out@).add(part_numbers(rest@)) =~= part_numbers(parts@));
            assert forall|v: i32| #[trigger] numbered_as(out@, v) == numbered_as(
                input.skip(rest@.len() as int),
                v,
            ) by {
                lemma_numbered_as_insert(old_out, i as int, x, v);
                input.skip(before.len() as int).lemma_filter_prepend(x, has_number(v));
            }
        }
    }
    assert(rest@.to_multiset() =~= Multiset::empty());
    assert(part_numbers(rest@) =~= Multiset::empty()) by {
        assert(part_number_seq(rest@) =~= Seq::empty());
    }
    assert(part_numbers(out@) =~= part_numbers(parts@));
    assert(input.skip(0) =~= input);
    out
}

} // verus!
