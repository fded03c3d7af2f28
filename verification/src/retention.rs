use vstd::prelude::*;
use crate::collapsed::CollapsedV;
use crate::expr::QuantityV;
use crate::simplify::{kept_parameters, retained, simplified_form};
use crate::text::split;

verus! {

/// A parameter is among those that stay exactly if it is a parameter and is
/// retained.
pub proof fn lemma_kept_parameters(
    params: Seq<(Seq<char>, Option<QuantityV>)>,
    tokens: Seq<Seq<char>>,
    e: (Seq<char>, Option<QuantityV>),
)
    ensures
        kept_parameters(params, tokens).contains(e) <==> params.contains(e) && retained(
            tokens,
            e.0,
            e.1,
        ),
    decreases params.len(),
{
    if params.len() > 0 {
        let head = params.drop_last();
        let kept = kept_parameters(head, tokens);
        lemma_kept_parameters(head, tokens, e);
        if kept_parameters(params, tokens).contains(e) {
            let i = choose|i: int|
                0 <= i < kept_parameters(params, tokens).len() && kept_parameters(
                    params,
                    tokens,
                )[i] == e;
            if retained(tokens, params.last().0, params.last().1) && i == kept.len() {
                assert(params[params.len() - 1] == e);
            } else {
                assert(kept[i] == e);
                let j = choose|j: int| 0 <= j < head.len() && head[j] == e;
                assert(params[j] == e);
            }
        }
        if params.contains(e) && retained(tokens, e.0, e.1) {
            let j = choose|j: int| 0 <= j < params.len() && params[j] == e;
            if j == params.len() - 1 {
                assert(kept_parameters(params, tokens)[kept.len() as int] == e);
            } else {
                assert(head[j] == e);
                let i = choose|i: int| 0 <= i < kept.len() && kept[i] == e;
                assert(kept_parameters(params, tokens)[i] == e);
            }
        }
    }
}

/// A filter that retains every parameter that another filter retains leaves,
/// after simplification, every parameter that the other leaves, with the
/// same value.
pub proof fn lemma_filter_monotone(x: CollapsedV, wide: Seq<char>, narrow: Seq<char>)
    requires
        forall|i: int|
            0 <= i < x.parameters.len() && retained(
                split(narrow, ','),
                (#[trigger] x.parameters[i]).0,
                x.parameters[i].1,
            ) ==> retained(split(wide, ','), x.parameters[i].0, x.parameters[i].1),
    ensures
        forall|e: (Seq<char>, Option<QuantityV>)|
            simplified_form(x, split(narrow, ',')).parameters.contains(e) ==> simplified_form(
                x,
                split(wide, ','),
            ).parameters.contains(e),
{
    assert forall|e: (Seq<char>, Option<QuantityV>)|
        simplified_form(x, split(narrow, ',')).parameters.contains(e) implies simplified_form(
        x,
        split(wide, ','),
    ).parameters.contains(e) by {
        lemma_kept_parameters(x.parameters, split(narrow, ','), e);
        lemma_kept_parameters(x.parameters, split(wide, ','), e);
        let j = choose|j: int| 0 <= j < x.parameters.len() && x.parameters[j] == e;
        assert(retained(split(wide, ','), x.parameters[j].0, x.parameters[j].1));
    }
}

} // verus!
