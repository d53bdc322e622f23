//! Completion of variable names: the built-in variables and the variables
//! of two scope chains, those that the line being typed has bound and those
//! that the shell holds from earlier commands.

use vstd::prelude::*;
use crate::candidate::{shown, Span};
use crate::text::{contains_text, is_prefix, lossy_text, starts_with_bytes, texts, utf8_lossy};

verus! {

/// The names of the built-in variables, sigil included, as bytes: `$nu`,
/// `$scope`, `$in`, `$config`, `$env`.
pub open spec fn builtin_names() -> Seq<Seq<u8>> {
    seq![
        seq![0x24u8, 0x6eu8, 0x75u8],
        seq![0x24u8, 0x73u8, 0x63u8, 0x6fu8, 0x70u8, 0x65u8],
        seq![0x24u8, 0x69u8, 0x6eu8],
        seq![0x24u8, 0x63u8, 0x6fu8, 0x6eu8, 0x66u8, 0x69u8, 0x67u8],
        seq![0x24u8, 0x65u8, 0x6eu8, 0x76u8],
    ]
}

/// The names of one scope, in the order given.
pub open spec fn scope_names(scope: Seq<Vec<u8>>) -> Seq<Seq<u8>> {
    scope.map_values(|n: Vec<u8>| n@)
}

/// The names of a chain of scopes, scope after scope.
pub open spec fn chain_names(chain: Seq<Vec<Vec<u8>>>) -> Seq<Seq<u8>>
    decreases chain.len(),
{
    if chain.len() == 0 {
        Seq::empty()
    } else {
        chain_names(chain.drop_last()) + scope_names(chain.last()@)
    }
}

/// Every name that can complete a variable: the built-in ones, then those
/// of the chain of the line being typed, then those of the shell's chain.
pub open spec fn visible_names(ephemeral: Seq<Vec<Vec<u8>>>, persistent: Seq<Vec<Vec<u8>>>) -> Seq<
    Seq<u8>,
> {
    builtin_names() + chain_names(ephemeral) + chain_names(persistent)
}

/// The texts found once `names` have been looked at in their order,
/// starting from `found`: a name that starts with `prefix` adds its text,
/// unless the text is there already.
pub open spec fn variable_texts(prefix: Seq<u8>, found: Seq<Seq<char>>, names: Seq<Seq<u8>>) -> Seq<
    Seq<char>,
>
    decreases names.len(),
{
    if names.len() == 0 {
        found
    } else {
        let before = variable_texts(prefix, found, names.drop_last());
        let name = names.last();
        if is_prefix(prefix, name) && !before.contains(utf8_lossy(name)) {
            before.push(utf8_lossy(name))
        } else {
            before
        }
    }
}

/// The candidates for a variable token: each text with the same span.
pub open spec fn variable_candidates(
    prefix: Seq<u8>,
    span: Span,
    ephemeral: Seq<Vec<Vec<u8>>>,
    persistent: Seq<Vec<Vec<u8>>>,
) -> Seq<(Span, Seq<char>)> {
    variable_texts(prefix, Seq::empty(), visible_names(ephemeral, persistent)).map_values(
        |t: Seq<char>| (span, t),
    )
}

/// Looking at `a` and then at `b` is looking at `a + b`.
pub proof fn lemma_variable_texts_add(
    prefix: Seq<u8>,
    found: Seq<Seq<char>>,
    a: Seq<Seq<u8>>,
    b: Seq<Seq<u8>>,
)
    ensures
        variable_texts(prefix, found, a + b) == variable_texts(
            prefix,
            variable_texts(prefix, found, a),
            b,
        ),
    decreases b.len(),
{
    if b.len() == 0 {
        assert(a + b =~= a);
    } else {
        assert((a + b).drop_last() =~= a + b.drop_last());
        lemma_variable_texts_add(prefix, found, a, b.drop_last());
    }
}

/// The texts found hold no text twice, and hold the text of every name
/// looked at that starts with the prefix.
pub proof fn lemma_variable_texts(prefix: Seq<u8>, found: Seq<Seq<char>>, names: Seq<Seq<u8>>)
    requires
        found.no_duplicates(),
    ensures
        ({
            let out = variable_texts(prefix, found, names);
            &&& out.no_duplicates()
            &&& found.len() <= out.len()
            &&& out.subrange(0, found.len() as int) == found
            &&& forall|i: int|
                0 <= i < names.len() && is_prefix(prefix, names[i]) ==> out.contains(
                    utf8_lossy(#[trigger] names[i]),
                )
            &&& forall|k: int|
                found.len() <= k < out.len() ==> exists|i: int|
                    0 <= i < names.len() && is_prefix(prefix, names[i]) && #[trigger] out[k]
                        == utf8_lossy(names[i])
        }),
    decreases names.len(),
{
    let out = variable_texts(prefix, found, names);
    if names.len() == 0 {
        assert(out.subrange(0, found.len() as int) =~= found);
    } else {
        let front = names.drop_last();
        let before = variable_texts(prefix, found, front);
        lemma_variable_texts(prefix, found, front);
        assert(out.subrange(0, found.len() as int) =~= before.subrange(0, found.len() as int));
        assert forall|i: int| 0 <= i < names.len() && is_prefix(prefix, names[i]) implies out.contains(
            utf8_lossy(#[trigger] names[i]),
        ) by {
            if i < names.len() - 1 {
                assert(front[i] == names[i]);
                let k = choose|k: int| 0 <= k < before.len() && before[k] == utf8_lossy(front[i]);
                assert(out[k] == utf8_lossy(names[i]));
            } else if before.contains(utf8_lossy(names[i])) {
                let k = choose|k: int| 0 <= k < before.len() && before[k] == utf8_lossy(names[i]);
                assert(out[k] == utf8_lossy(names[i]));
            } else {
                assert(out[out.len() - 1] == utf8_lossy(names[i]));
            }
        }
        assert forall|k: int| found.len() <= k < out.len() implies exists|i: int|
            0 <= i < names.len() && is_prefix(prefix, names[i]) && #[trigger] out[k] == utf8_lossy(
                names[i],
            ) by {
            if k < before.len() {
                let i = choose|i: int|
                    0 <= i < front.len() && is_prefix(prefix, front[i]) && before[k] == utf8_lossy(
                        front[i],
                    );
                assert(names[i] == front[i]);
            } else {
                assert(out[k] == utf8_lossy(names[names.len() - 1]));
            }
        }
    }
}

/// No two candidates for a variable token are the same: each holds the one
/// span, and no text occurs twice. Every visible name that starts with the
/// prefix has its text among the candidates, and every candidate is the text
/// of such a name.
pub proof fn lemma_variable_candidates_distinct(
    prefix: Seq<u8>,
    span: Span,
    ephemeral: Seq<Vec<Vec<u8>>>,
    persistent: Seq<Vec<Vec<u8>>>,
)
    ensures
        ({
            let out = variable_candidates(prefix, span, ephemeral, persistent);
            let names = visible_names(ephemeral, persistent);
            &&& out.no_duplicates()
            &&& forall|k: int| 0 <= k < out.len() ==> (#[trigger] out[k]).0 == span
            &&& forall|i: int|
                0 <= i < names.len() && is_prefix(prefix, names[i]) ==> out.contains(
                    (span, utf8_lossy(#[trigger] names[i])),
                )
            &&& forall|k: int|
                0 <= k < out.len() ==> exists|i: int|
                    0 <= i < names.len() && is_prefix(prefix, names[i]) && (#[trigger] out[k]).1
                        == utf8_lossy(names[i])
        }),
{
    let names = visible_names(ephemeral, persistent);
    let found = variable_texts(prefix, Seq::empty(), names);
    let out = variable_candidates(prefix, span, ephemeral, persistent);
    lemma_variable_texts(prefix, Seq::empty(), names);
    assert forall|i: int| 0 <= i < names.len() && is_prefix(prefix, names[i]) implies out.contains(
        (span, utf8_lossy(#[trigger] names[i])),
    ) by {
        let k = choose|k: int| 0 <= k < found.len() && found[k] == utf8_lossy(names[i]);
        assert(out[k] == (span, utf8_lossy(names[i])));
    }
    assert forall|k: int| 0 <= k < out.len() implies exists|i: int|
        0 <= i < names.len() && is_prefix(prefix, names[i]) && (#[trigger] out[k]).1 == utf8_lossy(
            names[i],
        ) by {
        assert(out[k].1 == found[k]);
    }
}

/// Looks at the names of one scope, adding to `out` the text of each that
/// starts with `prefix` and is not there yet.
fn add_scope(out: &mut Vec<String>, prefix: &[u8], scope: &Vec<Vec<u8>>)
    ensures
        texts(final(out)@) == variable_texts(prefix@, texts(old(out)@), scope_names(scope@)),
{
    let ghost found = texts(out@);
    let ghost names = scope_names(scope@);
    assert(names.subrange(0, 0) =~= Seq::empty());
    let mut i: usize = 0;
    while i < scope.len()
        invariant
            i <= scope.len(),
            names == scope_names(scope@),
            texts(out@) == variable_texts(prefix@, found, names.subrange(0, i as int)),
        decreases scope.len() - i,
    {
        assert(names.subrange(0, i + 1).drop_last() =~= names.subrange(0, i as int));
        assert(names.subrange(0, i + 1).last() == scope@[i as int]@);
        if starts_with_bytes(scope[i].as_slice(), prefix) {
            let text = lossy_text(scope[i].as_slice());
            if !contains_text(out, &text) {
                let ghost old_out = out@;
                out.push(text);
                assert(texts(out@) =~= texts(old_out).push(text@));
            }
        }
        i += 1;
    }
    assert(names.subrange(0, scope.len() as int) =~= names);
}

/// Looks at the names of a chain of scopes, scope after scope.
fn add_chain(out: &mut Vec<String>, prefix: &[u8], chain: &Vec<Vec<Vec<u8>>>)
    ensures
        texts(final(out)@) == variable_texts(prefix@, texts(old(out)@), chain_names(chain@)),
{
    let ghost found = texts(out@);
    assert(chain@.subrange(0, 0) =~= Seq::empty());
    let mut i: usize = 0;
    while i < chain.len()
        invariant
            i <= chain.len(),
            texts(out@) == variable_texts(
                prefix@,
                found,
                chain_names(chain@.subrange(0, i as int)),
            ),
        decreases chain.len() - i,
    {
        assert(chain@.subrange(0, i + 1).drop_last() =~= chain@.subrange(0, i as int));
        proof {
            lemma_variable_texts_add(
                prefix@,
                found,
                chain_names(chain@.subrange(0, i as int)),
                scope_names(chain@[i as int]@),
            );
        }
        add_scope(out, prefix, &chain[i]);
        i += 1;
    }
    assert(chain@.subrange(0, chain.len() as int) =~= chain@);
}

/// The built-in names, as a scope of their own.
fn builtin_scope() -> (scope: Vec<Vec<u8>>)
    ensures
        scope_names(scope@) == builtin_names(),
{
    let scope: Vec<Vec<u8>> = vec![
        vec![0x24u8, 0x6eu8, 0x75u8],
        vec![0x24u8, 0x73u8, 0x63u8, 0x6fu8, 0x70u8, 0x65u8],
        vec![0x24u8, 0x69u8, 0x6eu8],
        vec![0x24u8, 0x63u8, 0x6fu8, 0x6eu8, 0x66u8, 0x69u8, 0x67u8],
        vec![0x24u8, 0x65u8, 0x6eu8, 0x76u8],
    ];
    assert(scope@.len() == 5);
    assert(scope@[0]@ =~= builtin_names()[0]);
    assert(scope@[1]@ =~= builtin_names()[1]);
    assert(scope@[2]@ =~= builtin_names()[2]);
    assert(scope@[3]@ =~= builtin_names()[3]);
    assert(scope@[4]@ =~= builtin_names()[4]);
    assert(scope_names(scope@) =~= builtin_names());
    scope
}

/// The candidates for the variable token at `span` whose text so far is
/// `prefix`: the built-in variables, then the variables of each scope of
/// `ephemeral`, then those of each scope of `persistent`, as far as their
/// names start with `prefix`. Each candidate replaces the whole token, whose
/// span is given counted from `offset`; a candidate that an earlier name gave
/// already is not given again.
pub fn complete_variables(
    prefix: &[u8],
    span: Span,
    offset: usize,
    ephemeral: &Vec<Vec<Vec<u8>>>,
    persistent: &Vec<Vec<Vec<u8>>>,
) -> (out: Vec<(Span, String)>)
    requires
        span.starts_from(offset),
    ensures
        shown(out@) == variable_candidates(
            prefix@,
            span.spec_relative_to(offset),
            ephemeral@,
            persistent@,
        ),
        shown(out@).no_duplicates(),
        forall|i: int| 0 <= i < out@.len() ==> (#[trigger] out@[i]).0 == span.spec_relative_to(offset),
{
    let mut found: Vec<String> = Vec::new();
    assert(texts(found@) =~= Seq::empty());
    let builtins = builtin_scope();
    add_scope(&mut found, prefix, &builtins);
    add_chain(&mut found, prefix, ephemeral);
    add_chain(&mut found, prefix, persistent);
    proof {
        lemma_variable_texts_add(
            prefix@,
            Seq::empty(),
            builtin_names(),
            chain_names(ephemeral@),
        );
        lemma_variable_texts_add(
            prefix@,
            Seq::empty(),
            builtin_names() + chain_names(ephemeral@),
            chain_names(persistent@),
        );
        lemma_variable_candidates_distinct(
            prefix@,
            span.spec_relative_to(offset),
            ephemeral@,
            persistent@,
        );
    }
    let there = span.relative_to(offset);
    let mut out: Vec<(Span, String)> = Vec::new();
    let mut i: usize = 0;
    while i < found.len()
        invariant
            i <= found.len(),
            out@.len() == i,
            forall|j: int| 0 <= j < i ==> (#[trigger] out@[j]).0 == there && out@[j].1@ == found@[j]@,
        decreases found.len() - i,
    {
        out.push((there, found[i].clone()));
        i += 1;
    }
    assert(shown(out@) =~= texts(found@).map_values(|t: Seq<char>| (there, t)));
    out
}

} // verus!
