use vstd::prelude::*;

verus! {

/// Best-path collapse of a per-step symbol sequence: a step survives when it is not the
/// blank symbol and differs from the step before it.
pub open spec fn collapse(steps: Seq<u32>, blank: u32) -> Seq<u32>
    decreases steps.len(),
{
    if steps.len() == 0 {
        seq![]
    } else {
        let i = steps.len() - 1;
        let rest = collapse(steps.drop_last(), blank);
        if steps[i] != blank && (i == 0 || steps[i - 1] != steps[i]) {
            rest.push(steps[i])
        } else {
            rest
        }
    }
}

/// Collapses consecutive repeats into one symbol and drops every blank.
pub fn collapse_steps(steps: &Vec<u32>, blank: u32) -> (r: Vec<u32>)
    ensures
        r@ == collapse(steps@, blank),
{
    let mut r: Vec<u32> = Vec::new();
    let mut i: usize = 0;
    while i < steps.len()
        invariant
            i <= steps@.len(),
            r@ == collapse(steps@.subrange(0, i as int), blank),
        decreases steps@.len() - i,
    {
        let s = steps[i];
        let keep = s != blank && (i == 0 || steps[i - 1] != s);
        let ghost pre = steps@.subrange(0, i as int + 1);
        assert(pre.drop_last() =~= steps@.subrange(0, i as int));
        if keep {
            r.push(s);
        }
        i = i + 1;
    }
    assert(steps@.subrange(0, steps@.len() as int) =~= steps@);
    r
}

/// Index of the first highest score of a non-empty sequence.
pub open spec fn best_index(scores: Seq<i64>) -> nat
    decreases scores.len(),
{
    if scores.len() <= 1 {
        0
    } else {
        let k = best_index(scores.drop_last());
        if scores.last() > scores[k as int] {
            (scores.len() - 1) as nat
        } else {
            k
        }
    }
}

proof fn lemma_best_index_bounds(scores: Seq<i64>)
    requires
        scores.len() > 0,
    ensures
        best_index(scores) < scores.len(),
        forall|j: int| 0 <= j < scores.len() ==> #[trigger] scores[j] <= scores[best_index(scores) as int],
        forall|j: int| 0 <= j < best_index(scores) ==> #[trigger] scores[j] < scores[best_index(scores) as int],
    decreases scores.len(),
{
    if scores.len() > 1 {
        let d = scores.drop_last();
        lemma_best_index_bounds(d);
        assert forall|j: int| 0 <= j < d.len() implies #[trigger] d[j] == scores[j] by {}
        let k = best_index(d) as int;
        assert(d[k] == scores[k]);
        assert forall|j: int| 0 <= j < scores.len() implies #[trigger] scores[j] <= scores[
            best_index(scores) as int] by {
            if j < d.len() {
                assert(d[j] == scores[j]);
            }
        }
        assert forall|j: int| 0 <= j < best_index(scores) implies #[trigger] scores[j] < scores[
            best_index(scores) as int] by {
            if j < d.len() {
                assert(d[j] == scores[j]);
            }
        }
    }
}

/// The symbol with the highest score at one time step; on ties the lowest index wins.
pub fn best_symbol(scores: &Vec<i64>) -> (r: u32)
    requires
        0 < scores@.len() <= u32::MAX,
    ensures
        r == best_index(scores@),
        (r as int) < scores@.len(),
        forall|j: int| 0 <= j < scores@.len() ==> #[trigger] scores@[j] <= scores@[r as int],
        forall|j: int| 0 <= j < r ==> #[trigger] scores@[j] < scores@[r as int],
{
    let mut k: usize = 0;
    let mut i: usize = 1;
    while i < scores.len()
        invariant
            1 <= i <= scores@.len(),
            scores@.len() <= u32::MAX,
            k == best_index(scores@.subrange(0, i as int)),
            k < i,
        decreases scores@.len() - i,
    {
        let ghost pre = scores@.subrange(0, i as int + 1);
        assert(pre.drop_last() =~= scores@.subrange(0, i as int));
        if scores[i] > scores[k] {
            k = i;
        }
        i = i + 1;
    }
    assert(scores@.subrange(0, scores@.len() as int) =~= scores@);
    proof {
        lemma_best_index_bounds(scores@);
    }
    k as u32
}

/// The best symbol of every time step.
pub open spec fn best_path(scores: Seq<Seq<i64>>) -> Seq<u32> {
    Seq::new(scores.len(), |t: int| best_index(scores[t]) as u32)
}

/// What a step sequence reads as, given the vocabulary.
pub open spec fn text_of(symbols: Seq<u32>, vocab: Seq<char>) -> Seq<char> {
    symbols.map_values(|k: u32| vocab[k as int])
}

/// Relies on String::push: appends one character at the end.
#[verifier::external_body]
fn push_char(s: &mut String, c: char)
    ensures
        final(s)@ == old(s)@.push(c),
{
    s.push(c)
}

/// Turns a per-step symbol sequence into text: collapse, then look each symbol up.
/// An empty or all-blank sequence reads as the empty string.
pub fn decode_text(steps: &Vec<u32>, blank: u32, vocab: &Vec<char>) -> (r: String)
    requires
        forall|t: int| 0 <= t < steps@.len() ==> (#[trigger] steps@[t] as int) < vocab@.len(),
    ensures
        r@ == text_of(collapse(steps@, blank), vocab@),
{
    let symbols = collapse_steps(steps, blank);
    proof {
        lemma_collapse_from(steps@, blank);
    }
    let mut r = String::new();
    let mut i: usize = 0;
    while i < symbols.len()
        invariant
            i <= symbols@.len(),
            symbols@ == collapse(steps@, blank),
            forall|j: int| 0 <= j < symbols@.len() ==> (#[trigger] symbols@[j] as int) < vocab@.len(),
            r@ == text_of(symbols@.subrange(0, i as int), vocab@),
        decreases symbols@.len() - i,
    {
        let k = symbols[i] as usize;
        push_char(&mut r, vocab[k]);
        i = i + 1;
        assert(text_of(symbols@.subrange(0, i as int), vocab@) =~= text_of(
            symbols@.subrange(0, i - 1),
            vocab@,
        ).push(vocab@[k as int]));
    }
    assert(symbols@.subrange(0, symbols@.len() as int) =~= symbols@);
    r
}

/// A sequence of blanks only, the empty one included, decodes to nothing.
pub proof fn lemma_all_blank_decodes_empty(steps: Seq<u32>, blank: u32)
    requires
        forall|t: int| 0 <= t < steps.len() ==> #[trigger] steps[t] == blank,
    ensures
        collapse(steps, blank) == Seq::<u32>::empty(),
    decreases steps.len(),
{
    if steps.len() > 0 {
        lemma_all_blank_decodes_empty(steps.drop_last(), blank);
    }
}

/// No blank survives the collapse, and the result is never longer than its input.
pub proof fn lemma_collapse_drops_blanks(steps: Seq<u32>, blank: u32)
    ensures
        forall|j: int| 0 <= j < collapse(steps, blank).len() ==> #[trigger] collapse(steps, blank)[j] != blank,
        collapse(steps, blank).len() <= steps.len(),
    decreases steps.len(),
{
    if steps.len() > 0 {
        lemma_collapse_drops_blanks(steps.drop_last(), blank);
    }
}

/// Repeating a step changes nothing: the model may emit a symbol for any number of
/// consecutive columns and still reads the same.
pub proof fn lemma_repeated_step_collapses(steps: Seq<u32>, i: int, blank: u32)
    requires
        0 <= i < steps.len(),
    ensures
        collapse(steps.insert(i, steps[i]), blank) == collapse(steps, blank),
    decreases steps.len(),
{
    let t = steps.insert(i, steps[i]);
    let n = steps.len() as int;
    if i == n - 1 {
        assert(t.drop_last() =~= steps);
    } else {
        lemma_repeated_step_collapses(steps.drop_last(), i, blank);
        assert(t.drop_last() =~= steps.drop_last().insert(i, steps[i]));
        assert(t[n] == steps[n - 1]);
        assert(t[n - 1] == steps[n - 2]);
    }
}

/// Every symbol that survives the collapse is one of the input steps.
proof fn lemma_collapse_from(steps: Seq<u32>, blank: u32)
    ensures
        forall|j: int| 0 <= j < collapse(steps, blank).len() ==> exists|t: int|
            0 <= t < steps.len() && #[trigger] collapse(steps, blank)[j] == steps[t],
    decreases steps.len(),
{
    if steps.len() > 0 {
        lemma_collapse_from(steps.drop_last(), blank);
        let rest = collapse(steps.drop_last(), blank);
        assert forall|j: int| 0 <= j < collapse(steps, blank).len() implies exists|t: int|
            0 <= t < steps.len() && #[trigger] collapse(steps, blank)[j] == steps[t] by {
            if j < rest.len() {
                let t = choose|t: int| 0 <= t < steps.drop_last().len() && rest[j] == steps.drop_last()[t];
                assert(collapse(steps, blank)[j] == steps[t]);
            } else {
                assert(collapse(steps, blank)[j] == steps[steps.len() - 1]);
            }
        }
    }
}

/// Recognizes a field from the model's per-step scores: best symbol per step, then collapse
/// and look up.
pub fn recognize_scores(scores: &Vec<Vec<i64>>, blank: u32, vocab: &Vec<char>) -> (r: String)
    requires
        forall|t: int| 0 <= t < scores@.len() ==> 0 < (#[trigger] scores@[t])@.len() <= vocab@.len(),
        vocab@.len() <= u32::MAX,
    ensures
        r@ == text_of(collapse(best_path(scores@.map_values(|s: Vec<i64>| s@)), blank), vocab@),
{
    let mut steps: Vec<u32> = Vec::new();
    let ghost view = scores@.map_values(|s: Vec<i64>| s@);
    let mut t: usize = 0;
    while t < scores.len()
        invariant
            t <= scores@.len(),
            view == scores@.map_values(|s: Vec<i64>| s@),
            forall|u: int| 0 <= u < scores@.len() ==> 0 < (#[trigger] scores@[u])@.len() <= vocab@.len(),
            vocab@.len() <= u32::MAX,
            steps@ == best_path(view).subrange(0, t as int),
            forall|u: int| 0 <= u < t ==> (#[trigger] steps@[u] as int) < vocab@.len(),
        decreases scores@.len() - t,
    {
        let s = best_symbol(&scores[t]);
        steps.push(s);
        t = t + 1;
        assert(steps@ =~= best_path(view).subrange(0, t as int));
    }
    assert(steps@ =~= best_path(view));
    decode_text(&steps, blank, vocab)
}

} // verus!
