//! Completion by a provider: a unit of the user's code that is run when a
//! completion is asked for and yields the candidates.

use vstd::prelude::*;
use vstd::string::StringSliceAdditionalSpecFns;
use vstd::utf8::encode_utf8;
use crate::candidate::{lemma_shown_push, shown, Span};
use crate::text::{is_prefix, starts_with_bytes};

verus! {

/// What running a provider gave.
#[derive(Clone, Debug)]
pub enum Evaluation {
    /// The run ended with an error.
    Failed,
    /// The values that the run yielded, in their order, each as text; `None`
    /// for a value that cannot be read as text.
    Values(Vec<Option<String>>),
}

/// A provider broke its contract: one of the values it yielded cannot be
/// read as text.
#[derive(Clone, Copy, Debug, PartialEq, Eq, Structural)]
pub struct ProviderDefect {
    /// The declaration of the provider.
    pub provider: usize,
    /// The index, among the values yielded, of the first that is not text.
    pub output: usize,
}

/// The index of the first value that is not text.
pub open spec fn first_defect(values: Seq<Option<String>>) -> Option<int>
    decreases values.len(),
{
    if values.len() == 0 {
        None
    } else {
        match first_defect(values.drop_last()) {
            Some(i) => Some(i),
            None => if values.last() is None {
                Some(values.len() - 1)
            } else {
                None
            },
        }
    }
}

/// The texts among `values` whose UTF-8 bytes start with `prefix`, in their
/// order.
pub open spec fn provider_texts(values: Seq<Option<String>>, prefix: Seq<u8>) -> Seq<Seq<char>>
    decreases values.len(),
{
    if values.len() == 0 {
        Seq::empty()
    } else {
        let before = provider_texts(values.drop_last(), prefix);
        match values.last() {
            Some(s) => if is_prefix(prefix, encode_utf8(s@)) {
                before.push(s@)
            } else {
                before
            },
            None => before,
        }
    }
}

/// What a provider's run gives for the token at `span` whose text so far is
/// `prefix`: nothing where the run failed; a defect where some value is not
/// text; else a candidate for each value that starts with `prefix`.
pub open spec fn provider_outcome(
    evaluation: Evaluation,
    provider: usize,
    prefix: Seq<u8>,
    span: Span,
) -> Result<Seq<(Span, Seq<char>)>, ProviderDefect> {
    match evaluation {
        Evaluation::Failed => Ok(Seq::empty()),
        Evaluation::Values(values) => match first_defect(values@) {
            Some(i) => Err(ProviderDefect { provider, output: i as usize }),
            None => Ok(provider_texts(values@, prefix).map_values(|t: Seq<char>| (span, t))),
        },
    }
}

/// `first_defect` finds the first value that is not text, and finds none
/// only where every value is text.
pub proof fn lemma_first_defect(values: Seq<Option<String>>)
    ensures
        match first_defect(values) {
            Some(i) => 0 <= i < values.len() && values[i] is None && forall|j: int|
                0 <= j < i ==> #[trigger] values[j] is Some,
            None => forall|j: int| 0 <= j < values.len() ==> #[trigger] values[j] is Some,
        },
    decreases values.len(),
{
    if values.len() > 0 {
        lemma_first_defect(values.drop_last());
        match first_defect(values.drop_last()) {
            Some(i) => {
                assert(values.drop_last()[i] == values[i]);
                assert forall|j: int| 0 <= j < i implies #[trigger] values[j] is Some by {
                    assert(values.drop_last()[j] == values[j]);
                }
            },
            None => {
                assert forall|j: int| 0 <= j < values.len() - 1 implies #[trigger] values[j] is Some by {
                    assert(values.drop_last()[j] == values[j]);
                }
            },
        }
    }
}

/// Every text that a provider's values give starts with the prefix, and
/// every value that is a text starting with the prefix is given.
pub proof fn lemma_provider_texts(values: Seq<Option<String>>, prefix: Seq<u8>)
    ensures
        ({
            let out = provider_texts(values, prefix);
            &&& forall|k: int|
                0 <= k < out.len() ==> is_prefix(prefix, encode_utf8(#[trigger] out[k]))
            &&& forall|i: int|
                0 <= i < values.len() && values[i] is Some && is_prefix(
                    prefix,
                    encode_utf8(values[i]->0@),
                ) ==> out.contains((#[trigger] values[i])->0@)
        }),
    decreases values.len(),
{
    let out = provider_texts(values, prefix);
    if values.len() > 0 {
        let front = values.drop_last();
        let before = provider_texts(front, prefix);
        lemma_provider_texts(front, prefix);
        assert forall|i: int|
            0 <= i < values.len() && values[i] is Some && is_prefix(
                prefix,
                encode_utf8(values[i]->0@),
            ) implies out.contains((#[trigger] values[i])->0@) by {
            if i < values.len() - 1 {
                assert(front[i] == values[i]);
                let k = choose|k: int| 0 <= k < before.len() && before[k] == front[i]->0@;
                assert(out[k] == values[i]->0@);
            } else {
                assert(out[out.len() - 1] == values[i]->0@);
            }
        }
    }
}

/// The candidates that a provider's run gives for the token at `span` whose
/// text so far is `prefix`. A run that failed gives none. A value that is
/// not text is a defect of the provider, told apart from a run without
/// matches: the error names the provider and the first such value.
/// Otherwise each value whose bytes start with `prefix` is a candidate, in
/// the order in which the provider yielded them.
pub fn provider_completion(evaluation: &Evaluation, provider: usize, prefix: &[u8], span: Span) -> (r:
    Result<Vec<(Span, String)>, ProviderDefect>)
    ensures
        match r {
            Ok(out) => provider_outcome(*evaluation, provider, prefix@, span) == Ok::<
                Seq<(Span, Seq<char>)>,
                ProviderDefect,
            >(shown(out@)) && forall|i: int| 0 <= i < out@.len() ==> (#[trigger] out@[i]).0 == span,
            Err(e) => provider_outcome(*evaluation, provider, prefix@, span) == Err::<
                Seq<(Span, Seq<char>)>,
                ProviderDefect,
            >(e),
        },
{
    let mut out: Vec<(Span, String)> = Vec::new();
    assert(shown(out@) =~= Seq::empty());
    match evaluation {
        Evaluation::Failed => Ok(out),
        Evaluation::Values(values) => {
            let ghost stamp = |t: Seq<char>| (span, t);
            assert(values@.subrange(0, 0) =~= Seq::empty());
            assert(shown(out@) =~= provider_texts(values@.subrange(0, 0), prefix@).map_values(stamp));
            let mut i: usize = 0;
            while i < values.len()
                invariant
                    i <= values.len(),
                    *evaluation == Evaluation::Values(*values),
                    stamp == |t: Seq<char>| (span, t),
                    first_defect(values@.subrange(0, i as int)) is None,
                    shown(out@) == provider_texts(values@.subrange(0, i as int), prefix@).map_values(
                        stamp,
                    ),
                    forall|j: int| 0 <= j < out@.len() ==> (#[trigger] out@[j]).0 == span,
                decreases values.len() - i,
            {
                assert(values@.subrange(0, i + 1).drop_last() =~= values@.subrange(0, i as int));
                match &values[i] {
                    None => {
                        proof {
                            lemma_first_defect(values@);
                            lemma_first_defect(values@.subrange(0, i as int));
                            assert(values@[i as int] is None);
                            assert(first_defect(values@) is Some);
                            let k = first_defect(values@)->0;
                            if k < i {
                                assert(values@.subrange(0, i as int)[k] == values@[k]);
                            }
                            assert(k == i);

                        }
                        return Err(ProviderDefect { provider, output: i });
                    },
                    Some(s) => {
                        if starts_with_bytes(s.as_str().as_bytes(), prefix) {
                            let ghost before = provider_texts(values@.subrange(0, i as int), prefix@);
                            proof {
                                lemma_shown_push(out@, (span, *s));
                                assert(before.push(s@).map_values(stamp) =~= before.map_values(
                                    stamp,
                                ).push((span, s@)));
                            }
                            out.push((span, s.clone()));
                        }
                    },
                }
                i += 1;
            }
            assert(values@.subrange(0, values.len() as int) =~= values@);
            assert(first_defect(values@) is None);
            Ok(out)
        },
    }
}

} // verus!
