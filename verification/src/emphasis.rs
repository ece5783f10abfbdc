//! Splitting a row's name into matched and unmatched runs.

use vstd::prelude::*;

verus! {

/// The runs of the first `n` characters of `name`: maximal stretches of
/// characters whose positions are all in `matched` or all outside it.
pub open spec fn runs(name: Seq<char>, matched: Seq<usize>, n: nat) -> Seq<(Seq<char>, bool)>
    decreases n,
{
    if n == 0 {
        Seq::empty()
    } else {
        let rest = runs(name, matched, (n - 1) as nat);
        let c = name[n - 1];
        let hit = matched.contains((n - 1) as usize);
        if rest.len() > 0 && rest.last().1 == hit {
            rest.drop_last().push((rest.last().0.push(c), hit))
        } else {
            rest.push((seq![c], hit))
        }
    }
}

/// The spans of `name`: one unmatched span where nothing matched, its runs
/// otherwise.
pub open spec fn spans(name: Seq<char>, matched: Seq<usize>) -> Seq<(Seq<char>, bool)> {
    if matched.len() == 0 {
        seq![(name, false)]
    } else {
        runs(name, matched, name.len())
    }
}

/// The views of a sequence of spans.
pub open spec fn spans_view(spans: Seq<(String, bool)>) -> Seq<(Seq<char>, bool)> {
    spans.map_values(|span: (String, bool)| (span.0@, span.1))
}

proof fn lemma_spans_push(spans: Seq<(String, bool)>, span: (String, bool))
    ensures
        spans_view(spans.push(span)) == spans_view(spans).push((span.0@, span.1)),
{
    assert(spans_view(spans.push(span)) =~= spans_view(spans).push((span.0@, span.1)));
}

fn lists(indices: &[usize], wanted: usize) -> (has: bool)
    ensures
        has == indices@.contains(wanted),
{
    let mut i: usize = 0;
    while i < indices.len()
        invariant
            i <= indices@.len(),
            forall|k: int| 0 <= k < i ==> indices@[k] != wanted,
        decreases indices@.len() - i,
    {
        if indices[i] == wanted {
            assert(indices@[i as int] == wanted);
            return true;
        }
        i = i + 1;
    }
    false
}

/// Splits `name` into consecutive spans, each matched or unmatched as a whole.
pub fn emphasis_segments(name: &str, matched_indices: &[usize]) -> (segments: Vec<(String, bool)>)
    ensures
        spans_view(segments@) == spans(name@, matched_indices@),
{
    let mut segments: Vec<(String, bool)> = Vec::new();
    if matched_indices.len() == 0 {
        segments.push((name.to_owned(), false));
        proof {
            assert(spans_view(segments@) =~= spans(name@, matched_indices@));
        }
        return segments;
    }
    let chars = crate::text::characters(name);
    let ghost hits = matched_indices@;
    let mut current = String::new();
    let mut current_matched: bool = false;
    let mut i: usize = 0;
    proof {
        assert(spans_view(segments@) =~= Seq::<(Seq<char>, bool)>::empty());
    }
    while i < chars.len()
        invariant
            i <= chars.len(),
            chars@ == name@,
            hits == matched_indices@,
            i == 0 ==> current@.len() == 0 && spans_view(segments@) == runs(name@, hits, 0),
            i > 0 ==> current@.len() > 0 && runs(name@, hits, i as nat) == spans_view(
                segments@,
            ).push((current@, current_matched)),
        decreases chars.len() - i,
    {
        let matched = lists(matched_indices, i);
        let ghost rest = runs(name@, hits, i as nat);
        if current.as_str().is_empty() {
            current_matched = matched;
        } else if matched != current_matched {
            let mut finished = String::new();
            std::mem::swap(&mut finished, &mut current);
            proof {
                lemma_spans_push(segments@, (finished, current_matched));
            }
            segments.push((finished, current_matched));
            current_matched = matched;
        }
        let ghost so_far = current@;
        current.push(chars[i]);
        proof {
            if i > 0 && so_far.len() > 0 {
                assert(rest.last() == (so_far, matched));
                assert(rest.drop_last() =~= spans_view(segments@));
            } else {
                assert(so_far =~= Seq::<char>::empty());
                assert(current@ =~= seq![name@[i as int]]);
                assert(rest == spans_view(segments@));
            }
        }
        i = i + 1;
    }
    if !current.as_str().is_empty() {
        proof {
            lemma_spans_push(segments@, (current, current_matched));
        }
        segments.push((current, current_matched));
    }
    segments
}

// ---------------------------------------------------------------------------
// Laws
// ---------------------------------------------------------------------------

/// The text that spans spell together.
pub open spec fn spelled(spans: Seq<(Seq<char>, bool)>) -> Seq<char>
    decreases spans.len(),
{
    if spans.len() == 0 {
        Seq::empty()
    } else {
        spelled(spans.drop_last()) + spans.last().0
    }
}

/// The mark of each character that spans spell.
pub open spec fn marks(spans: Seq<(Seq<char>, bool)>) -> Seq<bool>
    decreases spans.len(),
{
    if spans.len() == 0 {
        Seq::empty()
    } else {
        marks(spans.drop_last()) + Seq::new(spans.last().0.len(), |i: int| spans.last().1)
    }
}

proof fn lemma_runs(name: Seq<char>, matched: Seq<usize>, n: nat)
    requires
        n <= name.len(),
    ensures
        spelled(runs(name, matched, n)) == name.take(n as int),
        marks(runs(name, matched, n)) == Seq::new(n, |i: int| matched.contains(i as usize)),
        forall|i: int|
            0 <= i < runs(name, matched, n).len() ==> (#[trigger] runs(name, matched, n)[i]).0.len()
                > 0,
        forall|i: int|
            0 < i < runs(name, matched, n).len() ==> runs(name, matched, n)[i - 1].1 != (
            #[trigger] runs(name, matched, n)[i]).1,
    decreases n,
{
    let here = runs(name, matched, n);
    if n == 0 {
        assert(name.take(0) =~= Seq::<char>::empty());
        assert(marks(here) =~= Seq::new(n, |i: int| matched.contains(i as usize)));
    } else {
        lemma_runs(name, matched, (n - 1) as nat);
        let rest = runs(name, matched, (n - 1) as nat);
        let c = name[n - 1];
        let hit = matched.contains((n - 1) as usize);
        assert(name.take(n as int) =~= name.take(n - 1).push(c));
        let all = Seq::new(n, |i: int| matched.contains(i as usize));
        let before = Seq::new((n - 1) as nat, |i: int| matched.contains(i as usize));
        assert(all =~= before.push(hit));
        if rest.len() > 0 && rest.last().1 == hit {
            let grown = (rest.last().0.push(c), hit);
            assert(here == rest.drop_last().push(grown));
            assert(here.drop_last() =~= rest.drop_last());
            assert(spelled(here) =~= spelled(rest).push(c));
            assert(marks(here) =~= marks(rest).push(hit));
            assert forall|i: int| 0 < i < here.len() implies here[i - 1].1 != (
            #[trigger] here[i]).1 by {
                assert(rest[i - 1].1 != rest[i].1);
            }
        } else {
            assert(here.drop_last() =~= rest);
            assert(spelled(here) =~= spelled(rest).push(c));
            assert(marks(here) =~= marks(rest).push(hit));
            assert forall|i: int| 0 < i < here.len() implies here[i - 1].1 != (
            #[trigger] here[i]).1 by {
                if i < rest.len() {
                    assert(rest[i - 1].1 != rest[i].1);
                }
            }
        }
    }
}

/// The spans spell the name, and each character is marked exactly where its
/// position is matched.
pub proof fn law_spans_spell_name(name: Seq<char>, matched: Seq<usize>)
    ensures
        spelled(spans(name, matched)) == name,
        marks(spans(name, matched)) == Seq::new(
            name.len(),
            |i: int| matched.contains(i as usize),
        ),
{
    if matched.len() == 0 {
        reveal_with_fuel(spelled, 2);
        reveal_with_fuel(marks, 2);
        let whole = spans(name, matched);
        assert(whole.drop_last() =~= Seq::<(Seq<char>, bool)>::empty());
        assert(spelled(whole) =~= name);
        assert(marks(whole) =~= Seq::new(name.len(), |i: int| matched.contains(i as usize)));
    } else {
        lemma_runs(name, matched, name.len());
        assert(name.take(name.len() as int) =~= name);
    }
}

/// Neighbouring spans differ in their mark, and no span of a matched name is
/// empty: the split is the coarsest one.
pub proof fn law_spans_are_maximal(name: Seq<char>, matched: Seq<usize>)
    ensures
        forall|i: int|
            0 < i < spans(name, matched).len() ==> spans(name, matched)[i - 1].1 != (
            #[trigger] spans(name, matched)[i]).1,
        matched.len() > 0 ==> forall|i: int|
            0 <= i < spans(name, matched).len() ==> (#[trigger] spans(name, matched)[i]).0.len()
                > 0,
{
    if matched.len() > 0 {
        lemma_runs(name, matched, name.len());
    }
}

/// The spans that the call gives spell the name, a character is emphasised where
/// its position is matched, and neighbouring spans differ.
pub proof fn law_matched_characters_are_emphasised(
    name: &str,
    matched: &[usize],
    segments: Vec<(String, bool)>,
)
    requires
        call_ensures(emphasis_segments, (name, matched), segments),
    ensures
        spelled(spans_view(segments@)) == name@,
        marks(spans_view(segments@)).len() == name@.len(),
        forall|i: int|
            0 <= i < name@.len() ==> (#[trigger] marks(spans_view(segments@))[i]
                <==> matched@.contains(i as usize)),
        forall|i: int|
            0 < i < segments@.len() ==> segments@[i - 1].1 != (#[trigger] segments@[i]).1,
        matched@.len() > 0 ==> forall|i: int|
            0 <= i < segments@.len() ==> (#[trigger] segments@[i]).0@.len() > 0,
{
    law_spans_spell_name(name@, matched@);
    law_spans_are_maximal(name@, matched@);
    let all = spans_view(segments@);
    assert(all.len() == segments@.len());
    assert forall|i: int| 0 < i < segments@.len() implies segments@[i - 1].1 != (
    #[trigger] segments@[i]).1 by {
        assert(all[i - 1].1 != all[i].1);
        assert(all[i] == (segments@[i].0@, segments@[i].1));
        assert(all[i - 1] == (segments@[i - 1].0@, segments@[i - 1].1));
    }
    if matched@.len() > 0 {
        assert forall|i: int| 0 <= i < segments@.len() implies (#[trigger] segments@[i]).0@.len()
            > 0 by {
            assert(all[i].0.len() > 0);
            assert(all[i] == (segments@[i].0@, segments@[i].1));
        }
    }
}

/// Spans one behind the other spell their texts one behind the other, and each
/// marks as many characters as it has, all alike.
pub proof fn law_spans_are_read_in_order(
    spans: Seq<(Seq<char>, bool)>,
    text: Seq<char>,
    hit: bool,
    i: int,
)
    ensures
        spelled(Seq::<(Seq<char>, bool)>::empty()).len() == 0,
        marks(Seq::<(Seq<char>, bool)>::empty()).len() == 0,
        spelled(spans.push((text, hit))) == spelled(spans) + text,
        marks(spans.push((text, hit))).len() == marks(spans).len() + text.len(),
        0 <= i < marks(spans).len() ==> marks(spans.push((text, hit)))[i] == marks(spans)[i],
        0 <= i < text.len() ==> marks(spans.push((text, hit)))[marks(spans).len() + i] == hit,
{
    let longer = spans.push((text, hit));
    assert(longer.drop_last() =~= spans);
    assert(longer.last() == (text, hit));
}

} // verus!
